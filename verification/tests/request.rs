//! How requests are taken in.

use headroom_proxy::error::ProxyError;
use headroom_proxy::request::{
    announced_too_large, body_too_large, intake, plan_request, policy_mode, AuthMode,
    CompressibleEndpoint, ForwardSettings, Intake,
};
use http::HeaderMap;

const SETTINGS: ForwardSettings = ForwardSettings {
    compression: true,
    compression_max_body_bytes: 100,
    auth_mode_policy_enforcement: false,
    enable_responses_streaming: true,
};

fn json_headers() -> HeaderMap {
    let mut h = HeaderMap::new();
    h.insert("content-type", "application/json".parse().unwrap());
    h
}

fn text_of(e: ProxyError) -> String {
    match e {
        ProxyError::PayloadTooLarge(text) => text,
    }
}

#[test]
fn bodies_are_buffered_only_where_all_conditions_hold() {
    let h = json_headers();
    let endpoint = Some(CompressibleEndpoint::AnthropicMessages);
    assert_eq!(
        intake(true, "POST", endpoint, &h),
        Intake::Buffer(CompressibleEndpoint::AnthropicMessages)
    );
    assert_eq!(intake(false, "POST", endpoint, &h), Intake::Stream);
    assert_eq!(intake(true, "PUT", endpoint, &h), Intake::Stream);
    assert_eq!(intake(true, "post", endpoint, &h), Intake::Stream);
    assert_eq!(intake(true, "POST", None, &h), Intake::Stream);
    assert_eq!(
        intake(true, "POST", endpoint, &HeaderMap::new()),
        Intake::Stream
    );
}

#[test]
fn policies_follow_the_client_only_where_enforced() {
    assert_eq!(policy_mode(true, AuthMode::OAuth), AuthMode::OAuth);
    assert_eq!(
        policy_mode(true, AuthMode::Subscription),
        AuthMode::Subscription
    );
    assert_eq!(policy_mode(false, AuthMode::OAuth), AuthMode::Payg);
    assert_eq!(policy_mode(false, AuthMode::Subscription), AuthMode::Payg);
}

#[test]
fn plans_hold_what_the_headers_say() {
    let mut h = json_headers();
    h.insert("x-request-id", "r-1".parse().unwrap());
    h.insert("host", "client.example".parse().unwrap());
    h.insert("content-length", "100".parse().unwrap());
    let plan = plan_request(
        &SETTINGS,
        "POST",
        Some(CompressibleEndpoint::OpenAiResponses),
        AuthMode::OAuth,
        &h,
    )
    .unwrap();
    assert_eq!(plan.request_id, "r-1");
    assert_eq!(plan.policy_mode, AuthMode::Payg);
    assert_eq!(plan.forwarded_host.as_deref(), Some("client.example"));
    assert_eq!(
        plan.intake,
        Intake::Buffer(CompressibleEndpoint::OpenAiResponses)
    );

    let enforced = ForwardSettings {
        auth_mode_policy_enforcement: true,
        ..SETTINGS
    };
    let plan = plan_request(&enforced, "GET", None, AuthMode::OAuth, &HeaderMap::new()).unwrap();
    assert_eq!(plan.request_id.len(), 36);
    assert_eq!(plan.policy_mode, AuthMode::OAuth);
    assert_eq!(plan.forwarded_host, None);
    assert_eq!(plan.intake, Intake::Stream);
}

#[test]
fn bodies_announced_as_too_large_are_refused_unread() {
    let mut h = json_headers();
    h.insert("content-length", "101".parse().unwrap());
    let endpoint = Some(CompressibleEndpoint::OpenAiChatCompletions);
    let err = plan_request(&SETTINGS, "POST", endpoint, AuthMode::Payg, &h).unwrap_err();
    assert_eq!(
        text_of(err),
        "request Content-Length 101 exceeds compression buffer limit (100 bytes)"
    );
    // Only bodies that would be buffered have a limit.
    assert!(plan_request(&SETTINGS, "PUT", endpoint, AuthMode::Payg, &h).is_ok());
    assert!(plan_request(&SETTINGS, "POST", None, AuthMode::Payg, &h).is_ok());
    // A length that is no number is no announcement.
    h.insert("content-length", "many".parse().unwrap());
    assert!(plan_request(&SETTINGS, "POST", endpoint, AuthMode::Payg, &h).is_ok());
}

#[test]
fn refusals_name_the_limit() {
    assert_eq!(
        text_of(announced_too_large(u64::MAX, 0)),
        "request Content-Length 18446744073709551615 exceeds compression buffer limit (0 bytes)"
    );
    assert_eq!(
        text_of(body_too_large(1048576, "length limit exceeded")),
        "request body exceeds compression buffer limit (1048576 bytes): length limit exceeded"
    );
}
