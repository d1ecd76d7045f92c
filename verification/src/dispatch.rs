//! What becomes of a buffered body once its compressor has run.

use crate::outside::bytes_api::{as_slice, content};
use crate::outside::json_api::{json_value, parse_json};
use crate::request::CompressibleEndpoint;
use bytes::Bytes;
use serde_json::Value;
use vstd::prelude::*;

verus! {

/// The token counts of one compression strategy.
#[derive(Debug, Clone, Copy)]
pub struct StrategyTokens {
    /// The strategy's name.
    pub strategy: &'static str,
    /// The tokens it was given.
    pub original_tokens: u64,
    /// The tokens it left.
    pub compressed_tokens: u64,
}

/// What a compressor made of a body.
#[derive(Debug)]
pub enum Outcome {
    /// There was nothing to compress.
    NoCompression,
    /// The body was compressed.
    Compressed {
        /// The new body.
        body: Bytes,
        /// The tokens of the old body.
        tokens_before: u64,
        /// The tokens of the new body.
        tokens_after: u64,
        /// The counts of each strategy, where the compressor keeps them.
        per_strategy_tokens: Vec<StrategyTokens>,
    },
    /// The body could not be read or written.
    Passthrough {
        /// Why not.
        reason: String,
    },
}

impl Outcome {
    /// Whether the body is to be sent on as it came.
    pub open spec fn keeps_body(&self) -> bool {
        !(self is Compressed)
    }
}

/// A compressor.
#[derive(Debug, Clone, Copy, PartialEq, Eq, Structural)]
pub enum Compressor {
    /// For Anthropic's Messages API.
    Anthropic,
    /// For OpenAI's Chat Completions API.
    OpenAiChat,
    /// For OpenAI's Responses API.
    OpenAiResponses,
}

/// The compressor that runs on a body of `endpoint`; none where a chat body is
/// to be skipped.
pub open spec fn compressor_of(endpoint: CompressibleEndpoint, skip_chat: bool) -> Option<
    Compressor,
> {
    match endpoint {
        CompressibleEndpoint::AnthropicMessages => Some(Compressor::Anthropic),
        CompressibleEndpoint::OpenAiChatCompletions => if skip_chat {
            None
        } else {
            Some(Compressor::OpenAiChat)
        },
        CompressibleEndpoint::OpenAiResponses => Some(Compressor::OpenAiResponses),
    }
}

/// The compressor that runs on a body of `endpoint`, where `skip_chat` says
/// whether a chat body is to be skipped.
pub fn compressor_for(endpoint: CompressibleEndpoint, skip_chat: bool) -> (r: Option<Compressor>)
    ensures
        r == compressor_of(endpoint, skip_chat),
{
    match endpoint {
        CompressibleEndpoint::AnthropicMessages => Some(Compressor::Anthropic),
        CompressibleEndpoint::OpenAiChatCompletions => if skip_chat {
            None
        } else {
            Some(Compressor::OpenAiChat)
        },
        CompressibleEndpoint::OpenAiResponses => Some(Compressor::OpenAiResponses),
    }
}

/// The API that a body belongs to.
#[derive(Debug, Clone, Copy, PartialEq, Eq, Structural)]
pub enum ApiKind {
    /// Anthropic's Messages API.
    Anthropic,
    /// OpenAI's Chat Completions API.
    OpenAiChat,
    /// OpenAI's Responses API.
    OpenAiResponses,
}

/// The API of the bodies of `endpoint`.
pub open spec fn api_of(endpoint: CompressibleEndpoint) -> ApiKind {
    match endpoint {
        CompressibleEndpoint::AnthropicMessages => ApiKind::Anthropic,
        CompressibleEndpoint::OpenAiChatCompletions => ApiKind::OpenAiChat,
        CompressibleEndpoint::OpenAiResponses => ApiKind::OpenAiResponses,
    }
}

/// The API of the bodies of `endpoint`.
pub fn api_kind(endpoint: CompressibleEndpoint) -> (r: ApiKind)
    ensures
        r == api_of(endpoint),
{
    match endpoint {
        CompressibleEndpoint::AnthropicMessages => ApiKind::Anthropic,
        CompressibleEndpoint::OpenAiChatCompletions => ApiKind::OpenAiChat,
        CompressibleEndpoint::OpenAiResponses => ApiKind::OpenAiResponses,
    }
}

/// A buffered body as the detectors of cache busts see it: its JSON value and
/// its API. A body that is not JSON is not shown to them.
pub fn observed_body(buffered: &Bytes, endpoint: CompressibleEndpoint) -> (r: Option<
    (Value, ApiKind),
>)
    ensures
        match r {
            Some((value, kind)) => {
                &&& json_value(content(*buffered)) == Some(value)
                &&& kind == api_of(endpoint)
            },
            None => json_value(content(*buffered)) is None,
        },
{
    match parse_json(as_slice(buffered)) {
        Ok(value) => Some((value, api_kind(endpoint))),
        Err(_) => None,
    }
}

/// One sample of a compression ratio.
#[derive(Debug, Clone, Copy)]
pub struct RatioSample {
    /// The strategy it is for, or `aggregate`.
    pub strategy: &'static str,
    /// The tokens before.
    pub before: u64,
    /// The tokens after.
    pub after: u64,
}

/// The sample for one strategy.
pub open spec fn strategy_sample(entry: StrategyTokens) -> RatioSample {
    RatioSample {
        strategy: entry.strategy,
        before: entry.original_tokens,
        after: entry.compressed_tokens,
    }
}

/// Whether `samples` are those of a compression: one for each strategy where
/// the strategies are known, else one for the whole where it made the body
/// smaller, else none.
pub open spec fn are_samples(
    samples: Seq<RatioSample>,
    per_strategy: Seq<StrategyTokens>,
    before: u64,
    after: u64,
) -> bool {
    if per_strategy.len() > 0 {
        samples == per_strategy.map_values(|entry: StrategyTokens| strategy_sample(entry))
    } else if before > 0 && after < before {
        &&& samples.len() == 1
        &&& samples[0].strategy@ == "aggregate"@
        &&& samples[0].before == before
        &&& samples[0].after == after
    } else {
        samples.len() == 0
    }
}

/// The samples of a compression.
pub fn ratio_samples(per_strategy: &[StrategyTokens], before: u64, after: u64) -> (r: Vec<
    RatioSample,
>)
    ensures
        are_samples(r@, per_strategy@, before, after),
{
    let mut samples: Vec<RatioSample> = Vec::new();
    if per_strategy.len() > 0 {
        let mut i: usize = 0;
        while i < per_strategy.len()
            invariant
                i <= per_strategy@.len(),
                samples@.len() == i,
                forall|k: int| 0 <= k < i ==> samples@[k] == strategy_sample(per_strategy@[k]),
            decreases per_strategy@.len() - i,
        {
            let entry = per_strategy[i];
            samples.push(
                RatioSample {
                    strategy: entry.strategy,
                    before: entry.original_tokens,
                    after: entry.compressed_tokens,
                },
            );
            i += 1;
        }
        assert(samples@ =~= per_strategy@.map_values(
            |entry: StrategyTokens| strategy_sample(entry),
        ));
    } else if before > 0 && after < before {
        samples.push(RatioSample { strategy: "aggregate", before, after });
    }
    samples
}

/// By how many bytes a body that was to be kept has changed its length.
pub open spec fn length_change(keeps_body: bool, sent: int, received: int) -> Option<int> {
    if keeps_body && sent != received {
        Some(
            if sent < received {
                received - sent
            } else {
                sent - received
            },
        )
    } else {
        None
    }
}

/// By how many bytes a body that was to be kept has changed its length; `None`
/// where it has not, or was not to be kept.
pub fn passthrough_delta(keeps_body: bool, sent: u64, received: u64) -> (r: Option<u64>)
    ensures
        match r {
            Some(delta) => length_change(keeps_body, sent as int, received as int) == Some(
                delta as int,
            ),
            None => length_change(keeps_body, sent as int, received as int) is None,
        },
{
    if keeps_body && sent != received {
        if sent < received {
            Some(received - sent)
        } else {
            Some(sent - received)
        }
    } else {
        None
    }
}

/// The body after compression: the new one where there is one, else the one
/// that came.
pub open spec fn dispatched_body(buffered: Seq<u8>, outcome: Outcome) -> Seq<u8> {
    match outcome {
        Outcome::Compressed { body, .. } => content(body),
        _ => buffered,
    }
}

/// A body after compression, and what there is to report of it.
#[derive(Debug)]
pub struct Dispatched {
    /// The body.
    pub body: Bytes,
    /// The samples of the compression.
    pub samples: Vec<RatioSample>,
    /// By how many bytes a body that was to be kept has changed its length.
    pub changed_by: Option<u64>,
}

/// Settles what a buffered body becomes.
pub fn settle_body(buffered: Bytes, outcome: Outcome) -> (r: Dispatched)
    ensures
        content(r.body) == dispatched_body(content(buffered), outcome),
        outcome matches Outcome::Compressed { body, .. } ==> content(r.body) == content(body),
        !(outcome is Compressed) ==> content(r.body) == content(buffered),
        r.changed_by is None,
        match outcome {
            Outcome::Compressed { tokens_before, tokens_after, per_strategy_tokens, .. } =>
                are_samples(r.samples@, per_strategy_tokens@, tokens_before, tokens_after),
            _ => r.samples@.len() == 0,
        },
{
    let received = as_slice(&buffered).len() as u64;
    let keeps_body = match &outcome {
        Outcome::Compressed { .. } => false,
        _ => true,
    };
    let (body, samples) = match outcome {
        Outcome::NoCompression => (buffered, Vec::new()),
        Outcome::Compressed { body, tokens_before, tokens_after, per_strategy_tokens } => {
            let samples = ratio_samples(per_strategy_tokens.as_slice(), tokens_before, tokens_after);
            (body, samples)
        },
        Outcome::Passthrough { .. } => (buffered, Vec::new()),
    };
    let changed_by = passthrough_delta(keeps_body, as_slice(&body).len() as u64, received);
    Dispatched { body, samples, changed_by }
}

/// A body that was not compressed is sent on byte for byte.
pub proof fn law_uncompressed_bodies_are_kept(buffered: Seq<u8>, outcome: Outcome)
    requires
        outcome.keeps_body(),
    ensures
        dispatched_body(buffered, outcome) == buffered,
{
}

/// Where the strategies are known there is a sample for each of them, in their
/// order and with their own counts; a compression that freed nothing gives no
/// sample where they are not.
pub proof fn law_samples_follow_strategies(
    samples: Seq<RatioSample>,
    per_strategy: Seq<StrategyTokens>,
    before: u64,
    after: u64,
)
    requires
        are_samples(samples, per_strategy, before, after),
    ensures
        per_strategy.len() > 0 ==> samples.len() == per_strategy.len(),
        forall|i: int|
            0 <= i < per_strategy.len() ==> (#[trigger] samples[i]).before
                == per_strategy[i].original_tokens && samples[i].after
                == per_strategy[i].compressed_tokens && samples[i].strategy
                == per_strategy[i].strategy,
        per_strategy.len() == 0 && after >= before ==> samples.len() == 0,
{
}

/// A compressed body is the one that goes on, whatever its token counts and its
/// strategies are and whatever body it was made of.
pub proof fn law_compressed_bodies_go_on(
    buffered: Seq<u8>,
    body: Bytes,
    tokens_before: u64,
    tokens_after: u64,
    per_strategy_tokens: Vec<StrategyTokens>,
)
    ensures
        dispatched_body(
            buffered,
            Outcome::Compressed { body, tokens_before, tokens_after, per_strategy_tokens },
        ) == content(body),
{
}

/// Without compression, and where the body could not be read or written, the
/// body that came goes on, whatever the reason.
pub proof fn law_other_bodies_go_on_as_they_came(buffered: Seq<u8>, reason: String)
    ensures
        dispatched_body(buffered, Outcome::NoCompression) == buffered,
        dispatched_body(buffered, Outcome::Passthrough { reason }) == buffered,
        Outcome::NoCompression.keeps_body(),
        (Outcome::Passthrough { reason }).keeps_body(),
{
}

/// Each endpoint has its own compressor, and goes without one only where it is
/// the chat endpoint and the body is to be skipped.
pub proof fn law_compressors_belong_to_endpoints(endpoint: CompressibleEndpoint, skip_chat: bool)
    ensures
        compressor_of(endpoint, skip_chat) == Some(Compressor::Anthropic) <==> endpoint
            == CompressibleEndpoint::AnthropicMessages,
        compressor_of(endpoint, skip_chat) == Some(Compressor::OpenAiResponses) <==> endpoint
            == CompressibleEndpoint::OpenAiResponses,
        compressor_of(endpoint, skip_chat) == Some(Compressor::OpenAiChat) <==> endpoint
            == CompressibleEndpoint::OpenAiChatCompletions && !skip_chat,
        compressor_of(endpoint, skip_chat) is None <==> endpoint
            == CompressibleEndpoint::OpenAiChatCompletions && skip_chat,
{
}

/// Each endpoint belongs to its own API.
pub proof fn law_apis_belong_to_endpoints(endpoint: CompressibleEndpoint)
    ensures
        api_of(endpoint) == ApiKind::Anthropic <==> endpoint
            == CompressibleEndpoint::AnthropicMessages,
        api_of(endpoint) == ApiKind::OpenAiChat <==> endpoint
            == CompressibleEndpoint::OpenAiChatCompletions,
        api_of(endpoint) == ApiKind::OpenAiResponses <==> endpoint
            == CompressibleEndpoint::OpenAiResponses,
{
}

/// A compression that freed tokens and does not know its strategies gives one
/// sample, for the whole; there is at most one then.
pub proof fn law_the_whole_gives_one_sample(samples: Seq<RatioSample>, before: u64, after: u64)
    requires
        are_samples(samples, Seq::empty(), before, after),
    ensures
        samples.len() <= 1,
        samples.len() == 1 <==> after < before,
        samples.len() == 1 ==> samples[0].strategy@ == "aggregate"@ && samples[0].before == before
            && samples[0].after == after,
{
}

/// A change of length is reported exactly where a body that was to be kept has
/// another length, and it leads from one length to the other.
pub proof fn law_changes_of_length_are_reported(keeps_body: bool, sent: int, received: int)
    ensures
        length_change(keeps_body, sent, received) is Some <==> keeps_body && sent != received,
        length_change(keeps_body, sent, received) matches Some(delta) ==> delta > 0 && (sent + delta
            == received || received + delta == sent),
{
}

} // verus!
