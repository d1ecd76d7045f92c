//! How a response is passed on: what is decided before its body is streamed.

use crate::headers::{
    asks_for_websocket, field_text, has_content_type, header_text, is_sse_response,
    is_websocket_upgrade, upstream_id,
};
use crate::outside::http_api::header_fields;
use crate::text::{contains_text, has_part, text_eq};
use http::HeaderMap;
use vstd::prelude::*;

verus! {

/// Which reader of telemetry runs along with a stream of server-sent events.
#[derive(Debug, Clone, Copy, PartialEq, Eq, Structural)]
pub enum SseStreamKind {
    /// None: the stream is only passed on.
    Unread,
    /// That of Anthropic's Messages API.
    Anthropic,
    /// That of OpenAI's Chat Completions API.
    OpenAiChat,
    /// That of OpenAI's Responses API.
    OpenAiResponses,
}

/// The reader for responses to requests on `path`.
pub open spec fn kind_of_path(path: Seq<char>) -> SseStreamKind {
    if path == "/v1/messages"@ {
        SseStreamKind::Anthropic
    } else if path == "/v1/chat/completions"@ {
        SseStreamKind::OpenAiChat
    } else if path == "/v1/responses"@ {
        SseStreamKind::OpenAiResponses
    } else {
        SseStreamKind::Unread
    }
}

impl SseStreamKind {
    /// The reader for responses to requests on `path`.
    pub fn for_request_path(path: &str) -> (r: Self)
        ensures
            r == kind_of_path(path@),
    {
        if text_eq(path, "/v1/messages") {
            SseStreamKind::Anthropic
        } else if text_eq(path, "/v1/chat/completions") {
            SseStreamKind::OpenAiChat
        } else if text_eq(path, "/v1/responses") {
            SseStreamKind::OpenAiResponses
        } else {
            SseStreamKind::Unread
        }
    }
}

/// The reader that runs along with a response: none where it is no stream of
/// events, or where the one for the Responses API is switched off.
pub open spec fn reader_of(
    is_sse: bool,
    path: Seq<char>,
    enable_responses_streaming: bool,
) -> SseStreamKind {
    if !is_sse || (kind_of_path(path) == SseStreamKind::OpenAiResponses
        && !enable_responses_streaming) {
        SseStreamKind::Unread
    } else {
        kind_of_path(path)
    }
}

/// The status that the client sees: the upstream's, or 502 where that is no
/// HTTP status.
pub open spec fn status_of(upstream: u16) -> u16 {
    if 100 <= upstream <= 999 {
        upstream
    } else {
        502
    }
}

/// Whose rate limits a response reports.
#[derive(Debug, Clone, Copy, PartialEq, Eq, Structural)]
pub enum RateLimitProvider {
    /// Anthropic's.
    Anthropic,
    /// OpenAI's, on the Chat Completions API.
    OpenAiChat,
    /// OpenAI's, on the Responses API.
    OpenAiResponses,
}

/// The rate limits that a response reports.
#[derive(Debug, Clone, Copy)]
pub struct RateLimitSnapshot {
    /// The requests left.
    pub remaining_requests: Option<u64>,
    /// The tokens left.
    pub remaining_tokens: Option<u64>,
    /// The input tokens left.
    pub remaining_input_tokens: Option<u64>,
    /// The output tokens left.
    pub remaining_output_tokens: Option<u64>,
}

impl RateLimitSnapshot {
    /// Whether there is anything in it.
    pub open spec fn reports_something(&self) -> bool {
        self.remaining_requests is Some || self.remaining_tokens is Some
            || self.remaining_input_tokens is Some || self.remaining_output_tokens is Some
    }
}

/// What is done with the rate limits of a response.
#[derive(Debug, Clone, Copy, PartialEq, Eq, Structural)]
pub enum RateLimitAction {
    /// They are recorded under a provider.
    Record(RateLimitProvider),
    /// They are there, but nothing says whose they are.
    Unattributable,
    /// There are none.
    Nothing,
}

/// The provider whose identifier a response carries. OpenAI's two APIs are told
/// apart by the path.
pub open spec fn provider_of(
    fields: Map<Seq<char>, Seq<Seq<u8>>>,
    path: Seq<char>,
) -> Option<RateLimitProvider> {
    if field_text(fields, "request-id"@) is Some {
        Some(RateLimitProvider::Anthropic)
    } else if field_text(fields, "x-request-id"@) is Some {
        if has_part(path, "/v1/responses"@) {
            Some(RateLimitProvider::OpenAiResponses)
        } else {
            Some(RateLimitProvider::OpenAiChat)
        }
    } else {
        None
    }
}

/// What is done with the rate limits of a response.
pub open spec fn rate_limit_action(
    provider: Option<RateLimitProvider>,
    snapshot: RateLimitSnapshot,
) -> RateLimitAction {
    match provider {
        Some(provider) => RateLimitAction::Record(provider),
        None => if snapshot.reports_something() {
            RateLimitAction::Unattributable
        } else {
            RateLimitAction::Nothing
        },
    }
}

/// What is known of a response before its body is streamed.
#[derive(Debug)]
pub struct ResponsePlan {
    /// The status that the client sees.
    pub status: u16,
    /// The identifier that the upstream gave the request.
    pub upstream_request_id: Option<String>,
    /// The reader of telemetry that runs along.
    pub sse_kind: SseStreamKind,
    /// What is done with the rate limits.
    pub rate_limits: RateLimitAction,
}

/// Decides how a response is passed on. `path` is the path of the request, and
/// `snapshot` the rate limits that the response reports.
pub fn plan_response(
    enable_responses_streaming: bool,
    path: &str,
    upstream_status: u16,
    upstream_headers: &HeaderMap,
    snapshot: &RateLimitSnapshot,
) -> (r: ResponsePlan)
    ensures
        r.status == status_of(upstream_status),
        match r.upstream_request_id {
            Some(id) => upstream_id(header_fields(*upstream_headers)) == Some(id@),
            None => upstream_id(header_fields(*upstream_headers)) is None,
        },
        r.sse_kind == reader_of(
            has_content_type(header_fields(*upstream_headers), "text/event-stream"@),
            path@,
            enable_responses_streaming,
        ),
        r.rate_limits == rate_limit_action(
            provider_of(header_fields(*upstream_headers), path@),
            *snapshot,
        ),
{
    let status: u16 = if 100 <= upstream_status && upstream_status <= 999 {
        upstream_status
    } else {
        502
    };
    let anthropic_id = header_text(upstream_headers, "request-id");
    let openai_id = header_text(upstream_headers, "x-request-id");
    let provider = match (anthropic_id, openai_id) {
        (Some(_), _) => Some(RateLimitProvider::Anthropic),
        (None, Some(_)) => if contains_text(path, "/v1/responses") {
            Some(RateLimitProvider::OpenAiResponses)
        } else {
            Some(RateLimitProvider::OpenAiChat)
        },
        (None, None) => None,
    };
    let upstream_request_id = match (anthropic_id, openai_id) {
        (Some(id), _) => Some(id.to_owned()),
        (None, Some(id)) => Some(id.to_owned()),
        (None, None) => None,
    };
    let sse_kind = if is_sse_response(upstream_headers) {
        let kind = SseStreamKind::for_request_path(path);
        if kind == SseStreamKind::OpenAiResponses && !enable_responses_streaming {
            SseStreamKind::Unread
        } else {
            kind
        }
    } else {
        SseStreamKind::Unread
    };
    let rate_limits = match provider {
        Some(provider) => RateLimitAction::Record(provider),
        None => if snapshot.remaining_requests.is_some() || snapshot.remaining_tokens.is_some()
            || snapshot.remaining_input_tokens.is_some()
            || snapshot.remaining_output_tokens.is_some() {
            RateLimitAction::Unattributable
        } else {
            RateLimitAction::Nothing
        },
    };
    ResponsePlan { status, upstream_request_id, sse_kind, rate_limits }
}

/// Who answers a request that no other route takes.
#[derive(Debug, Clone, Copy, PartialEq, Eq, Structural)]
pub enum CatchAll {
    /// The WebSocket handler.
    WebSocket,
    /// The HTTP forwarder.
    Http,
}

/// Who answers a request that no other route takes: the WebSocket handler where
/// the headers ask for an upgrade and the upgrade can be done, else the HTTP
/// forwarder. `upgradable` says whether it can be done.
pub fn catch_all(headers: &HeaderMap, upgradable: bool) -> (r: CatchAll)
    ensures
        r == (if asks_for_websocket(header_fields(*headers)) && upgradable {
            CatchAll::WebSocket
        } else {
            CatchAll::Http
        }),
{
    if is_websocket_upgrade(headers) && upgradable {
        CatchAll::WebSocket
    } else {
        CatchAll::Http
    }
}

/// Switching the Responses API's reader off leaves the others running.
pub proof fn law_switch_is_for_responses_only(is_sse: bool, path: Seq<char>)
    ensures
        reader_of(is_sse, path, false) != SseStreamKind::OpenAiResponses,
        kind_of_path(path) != SseStreamKind::OpenAiResponses ==> reader_of(is_sse, path, false)
            == reader_of(is_sse, path, true),
{
}

/// A response that is no stream of events is read by nobody.
pub proof fn law_only_events_are_read(path: Seq<char>, enable_responses_streaming: bool)
    ensures
        reader_of(false, path, enable_responses_streaming) == SseStreamKind::Unread,
{
}

/// Rate limits are recorded exactly where the upstream gave the request an
/// identifier.
pub proof fn law_rate_limits_are_attributed(
    fields: Map<Seq<char>, Seq<Seq<u8>>>,
    path: Seq<char>,
    snapshot: RateLimitSnapshot,
)
    ensures
        rate_limit_action(provider_of(fields, path), snapshot) is Record <==> upstream_id(
            fields,
        ) is Some,
{
}

/// The client sees the upstream's own status wherever that is an HTTP status,
/// and always sees one.
pub proof fn law_status_is_passed_on(upstream: u16)
    ensures
        100 <= status_of(upstream) <= 999,
        100 <= upstream <= 999 ==> status_of(upstream) == upstream,
{
}

/// Each reader belongs to one path, and every other path has none.
pub proof fn law_readers_belong_to_paths(path: Seq<char>)
    ensures
        kind_of_path(path) == SseStreamKind::Anthropic <==> path == "/v1/messages"@,
        kind_of_path(path) == SseStreamKind::OpenAiChat <==> path == "/v1/chat/completions"@,
        kind_of_path(path) == SseStreamKind::OpenAiResponses <==> path == "/v1/responses"@,
        kind_of_path(path) == SseStreamKind::Unread <==> path != "/v1/messages"@ && path
            != "/v1/chat/completions"@ && path != "/v1/responses"@,
{
    reveal_strlit("/v1/messages");
    reveal_strlit("/v1/chat/completions");
    reveal_strlit("/v1/responses");
    assert("/v1/messages"@.len() == 12 && "/v1/chat/completions"@.len() == 20
        && "/v1/responses"@.len() == 13);
}

/// A stream of events is read by the reader of its path, unless that is the
/// Responses API's and is switched off.
pub proof fn law_events_are_read_by_path(path: Seq<char>, enable_responses_streaming: bool)
    requires
        enable_responses_streaming || path != "/v1/responses"@,
    ensures
        reader_of(true, path, enable_responses_streaming) == kind_of_path(path),
{
    law_readers_belong_to_paths(path);
}

/// A status that is no HTTP status is answered as a bad gateway.
pub proof fn law_bad_statuses_are_bad_gateways(upstream: u16)
    ensures
        status_of(upstream) != upstream ==> status_of(upstream) == 502 && !(100 <= upstream <= 999),
{
}

/// The provider is Anthropic where its identifier is there, OpenAI where only
/// OpenAI's is, with its two APIs told apart by the path, and nobody otherwise.
pub proof fn law_providers_are_known_by_their_identifiers(
    fields: Map<Seq<char>, Seq<Seq<u8>>>,
    path: Seq<char>,
)
    ensures
        provider_of(fields, path) == Some(RateLimitProvider::Anthropic) <==> field_text(
            fields,
            "request-id"@,
        ) is Some,
        provider_of(fields, path) == Some(RateLimitProvider::OpenAiResponses) <==> field_text(
            fields,
            "request-id"@,
        ) is None && field_text(fields, "x-request-id"@) is Some && has_part(
            path,
            "/v1/responses"@,
        ),
        provider_of(fields, path) == Some(RateLimitProvider::OpenAiChat) <==> field_text(
            fields,
            "request-id"@,
        ) is None && field_text(fields, "x-request-id"@) is Some && !has_part(
            path,
            "/v1/responses"@,
        ),
        provider_of(fields, path) is None <==> field_text(fields, "request-id"@) is None
            && field_text(fields, "x-request-id"@) is None,
{
}

/// Rate limits are recorded under the provider that is known, whatever they are;
/// where none is known, limits that are there are noted and nothing else is.
pub proof fn law_rate_limits_are_recorded_or_noted(
    provider: Option<RateLimitProvider>,
    snapshot: RateLimitSnapshot,
    p: RateLimitProvider,
)
    ensures
        rate_limit_action(provider, snapshot) == RateLimitAction::Record(p) <==> provider == Some(p),
        rate_limit_action(provider, snapshot) == RateLimitAction::Nothing <==> provider is None
            && snapshot.remaining_requests is None && snapshot.remaining_tokens is None
            && snapshot.remaining_input_tokens is None && snapshot.remaining_output_tokens is None,
        rate_limit_action(provider, snapshot) == RateLimitAction::Unattributable <==> provider is None
            && !(snapshot.remaining_requests is None && snapshot.remaining_tokens is None
            && snapshot.remaining_input_tokens is None && snapshot.remaining_output_tokens is None),
{
}

} // verus!
