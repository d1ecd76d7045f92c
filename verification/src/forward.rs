//! The body that goes upstream.

use crate::cache_key::{
    inject_and_report, is_injected, is_reported, openai_shape, shape_of, InjectOutcome,
    InjectRecord, Injected, OpenAiShape,
};
use crate::dispatch::{
    are_samples, dispatched_body, law_compressed_bodies_go_on, settle_body, Outcome, RatioSample,
    StrategyTokens,
};
use crate::outside::bytes_api::content;
use crate::request::{AuthMode, CompressibleEndpoint};
use bytes::Bytes;
use serde_json::Value;
use vstd::prelude::*;

verus! {

/// Whether `sent` is what goes upstream of a body after compression: OpenAI
/// bodies may get a prompt cache key, Anthropic bodies are left alone.
pub open spec fn is_outgoing<F: FnOnce(Value, OpenAiShape) -> (InjectOutcome, Value)>(
    sent: Seq<u8>,
    body: Seq<u8>,
    endpoint: CompressibleEndpoint,
    auth_mode: AuthMode,
    inject: F,
) -> bool {
    match shape_of(endpoint) {
        Some(shape) => is_injected(sent, body, shape, auth_mode, inject),
        None => sent == body,
    }
}

/// A body that goes upstream, and what there is to report of it.
#[derive(Debug)]
pub struct Outgoing {
    /// The body.
    pub body: Bytes,
    /// The samples of its compression.
    pub samples: Vec<RatioSample>,
    /// By how many bytes a body that was to be kept has changed its length.
    pub changed_by: Option<u64>,
    /// What became of its prompt cache key, where the body is OpenAI's.
    pub injection: Option<InjectRecord>,
}

/// Settles what goes upstream of a buffered body, once its compressor has run
/// with `outcome`. `inject` adds a prompt cache key to a parsed OpenAI body, or
/// skips it. Whether a body that was to be kept has changed is told before that.
pub fn prepare_body<F: FnOnce(Value, OpenAiShape) -> (InjectOutcome, Value)>(
    endpoint: CompressibleEndpoint,
    auth_mode: AuthMode,
    buffered: Bytes,
    outcome: Outcome,
    inject: F,
) -> (r: Outgoing)
    requires
        forall|v: Value, shape: OpenAiShape| #[trigger] inject.requires((v, shape)),
    ensures
        is_outgoing(
            content(r.body),
            dispatched_body(content(buffered), outcome),
            endpoint,
            auth_mode,
            inject,
        ),
        match shape_of(endpoint) {
            Some(shape) => r.injection matches Some(record) && is_reported(
                (Injected { body: r.body, record }),
                dispatched_body(content(buffered), outcome),
                shape,
                auth_mode,
                inject,
            ),
            None => r.injection is None,
        },
        r.changed_by is None,
        match outcome {
            Outcome::Compressed { tokens_before, tokens_after, per_strategy_tokens, .. } =>
                are_samples(r.samples@, per_strategy_tokens@, tokens_before, tokens_after),
            _ => r.samples@.len() == 0,
        },
{
    let settled = settle_body(buffered, outcome);
    match openai_shape(endpoint) {
        Some(shape) => {
            let injected = inject_and_report(settled.body, shape, auth_mode, inject);
            Outgoing {
                body: injected.body,
                samples: settled.samples,
                changed_by: settled.changed_by,
                injection: Some(injected.record),
            }
        },
        None => Outgoing {
            body: settled.body,
            samples: settled.samples,
            changed_by: settled.changed_by,
            injection: None,
        },
    }
}

/// What the client sent reaches the upstream byte for byte, unless the body was
/// compressed or the client pays by use and talks to OpenAI.
pub proof fn law_bodies_are_kept<F: FnOnce(Value, OpenAiShape) -> (InjectOutcome, Value)>(
    sent: Seq<u8>,
    received: Seq<u8>,
    outcome: Outcome,
    endpoint: CompressibleEndpoint,
    auth_mode: AuthMode,
    inject: F,
)
    requires
        is_outgoing(sent, dispatched_body(received, outcome), endpoint, auth_mode, inject),
        outcome.keeps_body(),
        auth_mode != AuthMode::Payg || endpoint == CompressibleEndpoint::AnthropicMessages,
    ensures
        sent == received,
{
}

/// Bodies of the two OpenAI endpoints go through the injector, each under its own
/// shape, and those of Anthropic's endpoint do not.
pub proof fn law_openai_bodies_are_offered_a_key<
    F: FnOnce(Value, OpenAiShape) -> (InjectOutcome, Value),
>(sent: Seq<u8>, body: Seq<u8>, endpoint: CompressibleEndpoint, auth_mode: AuthMode, inject: F)
    requires
        is_outgoing(sent, body, endpoint, auth_mode, inject),
    ensures
        endpoint == CompressibleEndpoint::OpenAiChatCompletions ==> is_injected(
            sent,
            body,
            OpenAiShape::ChatCompletions,
            auth_mode,
            inject,
        ),
        endpoint == CompressibleEndpoint::OpenAiResponses ==> is_injected(
            sent,
            body,
            OpenAiShape::Responses,
            auth_mode,
            inject,
        ),
        endpoint == CompressibleEndpoint::AnthropicMessages ==> sent == body,
{
}

/// A compressed body goes upstream in place of the one that came, unless a key is
/// then added to it.
pub proof fn law_compressed_bodies_are_sent<
    F: FnOnce(Value, OpenAiShape) -> (InjectOutcome, Value),
>(
    sent: Seq<u8>,
    received: Seq<u8>,
    body: Bytes,
    tokens_before: u64,
    tokens_after: u64,
    per_strategy_tokens: Vec<StrategyTokens>,
    endpoint: CompressibleEndpoint,
    auth_mode: AuthMode,
    inject: F,
)
    requires
        is_outgoing(
            sent,
            dispatched_body(
                received,
                Outcome::Compressed { body, tokens_before, tokens_after, per_strategy_tokens },
            ),
            endpoint,
            auth_mode,
            inject,
        ),
        auth_mode != AuthMode::Payg || endpoint == CompressibleEndpoint::AnthropicMessages,
    ensures
        sent == content(body),
{
    law_compressed_bodies_go_on(
        received,
        body,
        tokens_before,
        tokens_after,
        per_strategy_tokens,
    );
}

} // verus!
