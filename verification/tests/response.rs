//! How responses are passed on.

use headroom_proxy::response::{
    catch_all, plan_response, CatchAll, RateLimitAction, RateLimitProvider, RateLimitSnapshot,
    ResponsePlan, SseStreamKind,
};
use http::HeaderMap;

const NO_LIMITS: RateLimitSnapshot = RateLimitSnapshot {
    remaining_requests: None,
    remaining_tokens: None,
    remaining_input_tokens: None,
    remaining_output_tokens: None,
};

fn plan(path: &str, status: u16, pairs: &[(&'static str, &str)]) -> ResponsePlan {
    let mut h = HeaderMap::new();
    for (name, value) in pairs {
        h.insert(*name, value.parse().unwrap());
    }
    plan_response(true, path, status, &h, &NO_LIMITS)
}

#[test]
fn readers_follow_the_request_path() {
    assert_eq!(
        SseStreamKind::for_request_path("/v1/messages"),
        SseStreamKind::Anthropic
    );
    assert_eq!(
        SseStreamKind::for_request_path("/v1/chat/completions"),
        SseStreamKind::OpenAiChat
    );
    assert_eq!(
        SseStreamKind::for_request_path("/v1/responses"),
        SseStreamKind::OpenAiResponses
    );
    assert_eq!(
        SseStreamKind::for_request_path("/v1/responses/"),
        SseStreamKind::Unread
    );
}

#[test]
fn only_event_streams_are_read() {
    let sse = ("content-type", "text/event-stream");
    assert_eq!(
        plan("/v1/messages", 200, &[sse]).sse_kind,
        SseStreamKind::Anthropic
    );
    assert_eq!(
        plan("/v1/messages", 200, &[("content-type", "application/json")]).sse_kind,
        SseStreamKind::Unread
    );
    assert_eq!(
        plan("/elsewhere", 200, &[sse]).sse_kind,
        SseStreamKind::Unread
    );
}

#[test]
fn the_responses_reader_can_be_switched_off() {
    let mut h = HeaderMap::new();
    h.insert("content-type", "text/event-stream".parse().unwrap());
    for (path, on, off) in [
        (
            "/v1/responses",
            SseStreamKind::OpenAiResponses,
            SseStreamKind::Unread,
        ),
        (
            "/v1/messages",
            SseStreamKind::Anthropic,
            SseStreamKind::Anthropic,
        ),
    ] {
        assert_eq!(plan_response(true, path, 200, &h, &NO_LIMITS).sse_kind, on);
        assert_eq!(
            plan_response(false, path, 200, &h, &NO_LIMITS).sse_kind,
            off
        );
    }
}

#[test]
fn statuses_are_passed_on() {
    assert_eq!(plan("/", 200, &[]).status, 200);
    assert_eq!(plan("/", 100, &[]).status, 100);
    assert_eq!(plan("/", 999, &[]).status, 999);
    assert_eq!(plan("/", 99, &[]).status, 502);
    assert_eq!(plan("/", 1000, &[]).status, 502);
}

#[test]
fn the_anthropic_identifier_is_preferred() {
    let both = [("request-id", "a-1"), ("x-request-id", "o-1")];
    assert_eq!(
        plan("/", 200, &both).upstream_request_id.as_deref(),
        Some("a-1")
    );
    assert_eq!(
        plan("/", 200, &both[1..]).upstream_request_id.as_deref(),
        Some("o-1")
    );
    assert_eq!(plan("/", 200, &[]).upstream_request_id, None);
}

#[test]
fn rate_limits_go_to_the_provider_that_answered() {
    let record = RateLimitAction::Record;
    assert_eq!(
        plan("/v1/responses", 200, &[("request-id", "a")]).rate_limits,
        record(RateLimitProvider::Anthropic)
    );
    assert_eq!(
        plan("/base/v1/responses/1", 200, &[("x-request-id", "o")]).rate_limits,
        record(RateLimitProvider::OpenAiResponses)
    );
    assert_eq!(
        plan("/v1/chat/completions", 200, &[("x-request-id", "o")]).rate_limits,
        record(RateLimitProvider::OpenAiChat)
    );
    assert_eq!(plan("/", 200, &[]).rate_limits, RateLimitAction::Nothing);
}

#[test]
fn rate_limits_of_nobody_are_not_recorded() {
    for limits in [
        RateLimitSnapshot {
            remaining_requests: Some(0),
            ..NO_LIMITS
        },
        RateLimitSnapshot {
            remaining_tokens: Some(1),
            ..NO_LIMITS
        },
        RateLimitSnapshot {
            remaining_input_tokens: Some(2),
            ..NO_LIMITS
        },
        RateLimitSnapshot {
            remaining_output_tokens: Some(3),
            ..NO_LIMITS
        },
    ] {
        let plan = plan_response(true, "/v1/messages", 200, &HeaderMap::new(), &limits);
        assert_eq!(plan.rate_limits, RateLimitAction::Unattributable);
    }
}

#[test]
fn websockets_need_an_upgrade_that_can_be_done() {
    let mut h = HeaderMap::new();
    assert_eq!(catch_all(&h, true), CatchAll::Http);
    h.insert("upgrade", "websocket".parse().unwrap());
    h.insert("connection", "Upgrade".parse().unwrap());
    assert_eq!(catch_all(&h, true), CatchAll::WebSocket);
    assert_eq!(catch_all(&h, false), CatchAll::Http);
}
