//! How a request is taken in: what is decided before its body is read.

use crate::error::ProxyError;
use crate::headers::{
    announced_length, content_length, ensure_request_id, field_text, has_content_type, header_text,
    is_application_json,
};
use crate::outside::http_api::header_fields;
use crate::outside::uuid_api::is_random_uuid_text;
use crate::text::{decimal, decimal_text, text_eq};
use http::HeaderMap;
use vstd::prelude::*;

verus! {

/// How the client pays for its requests.
#[derive(Debug, Clone, Copy, PartialEq, Eq, Structural)]
pub enum AuthMode {
    /// By use.
    Payg,
    /// Through an account that a token was issued for.
    OAuth,
    /// By a subscription.
    Subscription,
}

/// An endpoint whose request bodies can be compressed.
#[derive(Debug, Clone, Copy, PartialEq, Eq, Structural)]
pub enum CompressibleEndpoint {
    /// Anthropic's `/v1/messages`.
    AnthropicMessages,
    /// OpenAI's `/v1/chat/completions`.
    OpenAiChatCompletions,
    /// OpenAI's `/v1/responses`.
    OpenAiResponses,
}

/// The settings that forwarding depends on.
#[derive(Debug, Clone, Copy)]
pub struct ForwardSettings {
    /// The master switch of compression.
    pub compression: bool,
    /// The largest body that is buffered for compression, in bytes.
    pub compression_max_body_bytes: u64,
    /// Whether the compression policy follows the client's [`AuthMode`].
    pub auth_mode_policy_enforcement: bool,
    /// Whether streams of OpenAI's Responses API are read for telemetry.
    pub enable_responses_streaming: bool,
}

/// The mode whose compression policy applies: the client's own where policies
/// are enforced, and [`AuthMode::Payg`] for everyone otherwise.
pub open spec fn effective_mode(enforced: bool, auth_mode: AuthMode) -> AuthMode {
    if enforced {
        auth_mode
    } else {
        AuthMode::Payg
    }
}

/// The mode whose compression policy applies.
pub fn policy_mode(enforced: bool, auth_mode: AuthMode) -> (r: AuthMode)
    ensures
        r == effective_mode(enforced, auth_mode),
{
    if enforced {
        auth_mode
    } else {
        AuthMode::Payg
    }
}

/// What happens to the body of a request.
#[derive(Debug, Clone, Copy, PartialEq, Eq, Structural)]
pub enum Intake {
    /// It is passed on while it arrives.
    Stream,
    /// It is buffered for the compressor of its endpoint.
    Buffer(CompressibleEndpoint),
}

/// What happens to the body of a request: it is buffered where compression is
/// on, the method is `POST`, the endpoint has a compressor and the body is JSON.
pub open spec fn intake_of(
    compression: bool,
    method: Seq<char>,
    endpoint: Option<CompressibleEndpoint>,
    fields: Map<Seq<char>, Seq<Seq<u8>>>,
) -> Intake {
    match endpoint {
        Some(endpoint) if compression && method == "POST"@ && has_content_type(
            fields,
            "application/json"@,
        ) => Intake::Buffer(endpoint),
        _ => Intake::Stream,
    }
}

/// What happens to the body of a request.
pub fn intake(
    compression: bool,
    method: &str,
    endpoint: Option<CompressibleEndpoint>,
    headers: &HeaderMap,
) -> (r: Intake)
    ensures
        r == intake_of(compression, method@, endpoint, header_fields(*headers)),
{
    match endpoint {
        Some(endpoint) => if compression && text_eq(method, "POST") && is_application_json(headers) {
            Intake::Buffer(endpoint)
        } else {
            Intake::Stream
        },
        None => Intake::Stream,
    }
}

/// The refusal of a body that was announced as longer than `limit`.
pub open spec fn announced_too_large_text(length: u64, limit: u64) -> Seq<char> {
    "request Content-Length "@ + decimal(length as nat) + " exceeds compression buffer limit ("@
        + decimal(limit as nat) + " bytes)"@
}

/// The refusal of a body that was announced as longer than `limit`.
pub fn announced_too_large(length: u64, limit: u64) -> (r: ProxyError)
    ensures
        r matches ProxyError::PayloadTooLarge(text) && text@ == announced_too_large_text(
            length,
            limit,
        ),
{
    let mut text = String::from_str("request Content-Length ");
    text.append(decimal_text(length).as_str());
    text.append(" exceeds compression buffer limit (");
    text.append(decimal_text(limit).as_str());
    text.append(" bytes)");
    ProxyError::PayloadTooLarge(text)
}

/// The refusal of a body that turned out longer than `limit`, where `cause` is
/// what stopped the reading.
pub open spec fn body_too_large_text(limit: u64, cause: Seq<char>) -> Seq<char> {
    "request body exceeds compression buffer limit ("@ + decimal(limit as nat) + " bytes): "@ + cause
}

/// The refusal of a body that turned out longer than `limit`.
pub fn body_too_large(limit: u64, cause: &str) -> (r: ProxyError)
    ensures
        r matches ProxyError::PayloadTooLarge(text) && text@ == body_too_large_text(limit, cause@),
{
    let mut text = String::from_str("request body exceeds compression buffer limit (");
    text.append(decimal_text(limit).as_str());
    text.append(" bytes): ");
    text.append(cause);
    ProxyError::PayloadTooLarge(text)
}

/// What is known of a request before its body is read.
#[derive(Debug)]
pub struct RequestPlan {
    /// The identifier of the request.
    pub request_id: String,
    /// The mode whose compression policy applies.
    pub policy_mode: AuthMode,
    /// The `Host` that the client sent.
    pub forwarded_host: Option<String>,
    /// What happens to the body.
    pub intake: Intake,
}

/// Whether a request is refused for the length that it announces: its body
/// would be buffered and is longer than the limit.
pub open spec fn is_announced_too_large(
    settings: ForwardSettings,
    method: Seq<char>,
    endpoint: Option<CompressibleEndpoint>,
    fields: Map<Seq<char>, Seq<Seq<u8>>>,
) -> bool {
    &&& intake_of(settings.compression, method, endpoint, fields) is Buffer
    &&& announced_length(fields) matches Some(length) && length
        > settings.compression_max_body_bytes
}

/// Decides how a request is taken in, before any of its body is read.
///
/// `endpoint` is the compressible endpoint that its path names, and `auth_mode`
/// the mode that its headers show.
pub fn plan_request(
    settings: &ForwardSettings,
    method: &str,
    endpoint: Option<CompressibleEndpoint>,
    auth_mode: AuthMode,
    headers: &HeaderMap,
) -> (r: Result<RequestPlan, ProxyError>)
    ensures
        match r {
            Ok(plan) => {
                &&& !is_announced_too_large(*settings, method@, endpoint, header_fields(*headers))
                &&& match field_text(header_fields(*headers), "x-request-id"@) {
                    Some(id) => plan.request_id@ == id,
                    None => is_random_uuid_text(plan.request_id@),
                }
                &&& plan.policy_mode == effective_mode(
                    settings.auth_mode_policy_enforcement,
                    auth_mode,
                )
                &&& match plan.forwarded_host {
                    Some(host) => field_text(header_fields(*headers), "host"@) == Some(host@),
                    None => field_text(header_fields(*headers), "host"@) is None,
                }
                &&& plan.intake == intake_of(
                    settings.compression,
                    method@,
                    endpoint,
                    header_fields(*headers),
                )
            },
            Err(ProxyError::PayloadTooLarge(text)) => {
                &&& is_announced_too_large(*settings, method@, endpoint, header_fields(*headers))
                &&& text@ == announced_too_large_text(
                    announced_length(header_fields(*headers))->Some_0,
                    settings.compression_max_body_bytes,
                )
            },
        },
{
    let request_id = ensure_request_id(headers);
    let forwarded_host = match header_text(headers, "host") {
        Some(host) => Some(host.to_owned()),
        None => None,
    };
    let taken = intake(settings.compression, method, endpoint, headers);
    if let Intake::Buffer(_) = taken {
        if let Some(length) = content_length(headers) {
            if length > settings.compression_max_body_bytes {
                return Err(announced_too_large(length, settings.compression_max_body_bytes));
            }
        }
    }
    Ok(
        RequestPlan {
            request_id,
            policy_mode: policy_mode(settings.auth_mode_policy_enforcement, auth_mode),
            forwarded_host,
            intake: taken,
        },
    )
}

/// Without enforcement every client is under the policy of [`AuthMode::Payg`],
/// however it authenticates.
pub proof fn law_policies_are_opt_in(a: AuthMode, b: AuthMode)
    ensures
        effective_mode(false, a) == effective_mode(false, b),
        effective_mode(false, a) == AuthMode::Payg,
        effective_mode(true, a) == a,
{
}

/// A body that is not to be compressed is never refused for its length.
pub proof fn law_streamed_bodies_have_no_limit(
    settings: ForwardSettings,
    method: Seq<char>,
    endpoint: Option<CompressibleEndpoint>,
    fields: Map<Seq<char>, Seq<Seq<u8>>>,
)
    requires
        !settings.compression || method != "POST"@ || endpoint is None || !has_content_type(
            fields,
            "application/json"@,
        ),
    ensures
        intake_of(settings.compression, method, endpoint, fields) == Intake::Stream,
        !is_announced_too_large(settings, method, endpoint, fields),
{
}

/// A body that is buffered is buffered for the endpoint that was given, and it is
/// so for every endpoint where compression is on, the method is `POST` and the
/// body is JSON; otherwise it is streamed.
pub proof fn law_bodies_are_buffered_for_their_endpoint(
    compression: bool,
    method: Seq<char>,
    endpoint: Option<CompressibleEndpoint>,
    fields: Map<Seq<char>, Seq<Seq<u8>>>,
    e: CompressibleEndpoint,
)
    ensures
        intake_of(compression, method, endpoint, fields) == Intake::Buffer(e) <==> endpoint == Some(
            e,
        ) && compression && method == "POST"@ && has_content_type(fields, "application/json"@),
        intake_of(compression, method, endpoint, fields) == Intake::Stream <==> endpoint is None
            || !compression || method != "POST"@ || !has_content_type(
            fields,
            "application/json"@,
        ),
{
}

/// Of the header fields only the content type decides whether a body is buffered.
pub proof fn law_only_the_content_type_decides(
    compression: bool,
    method: Seq<char>,
    endpoint: Option<CompressibleEndpoint>,
    a: Map<Seq<char>, Seq<Seq<u8>>>,
    b: Map<Seq<char>, Seq<Seq<u8>>>,
)
    requires
        field_text(a, "content-type"@) == field_text(b, "content-type"@),
    ensures
        intake_of(compression, method, endpoint, a) == intake_of(compression, method, endpoint, b),
{
}

/// A body that would be buffered is refused exactly where it announces more than
/// the limit; one that announces nothing is not refused.
pub proof fn law_refusals_begin_beyond_the_limit(
    settings: ForwardSettings,
    method: Seq<char>,
    endpoint: Option<CompressibleEndpoint>,
    fields: Map<Seq<char>, Seq<Seq<u8>>>,
    length: u64,
)
    requires
        intake_of(settings.compression, method, endpoint, fields) != Intake::Stream,
    ensures
        announced_length(fields) is None ==> !is_announced_too_large(
            settings,
            method,
            endpoint,
            fields,
        ),
        announced_length(fields) == Some(length) ==> (is_announced_too_large(
            settings,
            method,
            endpoint,
            fields,
        ) <==> length > settings.compression_max_body_bytes),
{
}

/// A refusal for an announced length starts with that length and ends with the
/// limit.
pub proof fn law_refusals_name_length_and_limit(length: u64, limit: u64)
    ensures
        ({
            let text = announced_too_large_text(length, limit);
            let start = "request Content-Length "@ + decimal(length as nat)
                + " exceeds compression buffer limit ("@;
            let end = decimal(limit as nat) + " bytes)"@;
            &&& text.len() == start.len() + end.len()
            &&& start.is_prefix_of(text)
            &&& text.skip(start.len() as int) == end
        }),
{
    let start = "request Content-Length "@ + decimal(length as nat)
        + " exceeds compression buffer limit ("@;
    let end = decimal(limit as nat) + " bytes)"@;
    assert(announced_too_large_text(length, limit) =~= start + end);
    assert((start + end).skip(start.len() as int) =~= end);
}

/// A refusal for a body that was read too far names the limit and ends with what
/// stopped the reading.
pub proof fn law_refusals_end_with_their_cause(limit: u64, cause: Seq<char>)
    ensures
        ({
            let text = body_too_large_text(limit, cause);
            let start = "request body exceeds compression buffer limit ("@ + decimal(limit as nat)
                + " bytes): "@;
            &&& text.len() == start.len() + cause.len()
            &&& start.is_prefix_of(text)
            &&& text.skip(start.len() as int) == cause
        }),
{
    let start = "request body exceeds compression buffer limit ("@ + decimal(limit as nat)
        + " bytes): "@;
    assert(body_too_large_text(limit, cause) =~= start + cause);
    assert((start + cause).skip(start.len() as int) =~= cause);
}

} // verus!
