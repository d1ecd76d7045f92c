//! Prompt cache keys for OpenAI bodies.

use crate::outside::bytes_api::{as_slice, bytes_from_vec, content};
use crate::outside::json_api::{json_value, json_written, parse_json, write_json};
use crate::request::{AuthMode, CompressibleEndpoint};
use bytes::Bytes;
use serde_json::Value;
use vstd::prelude::*;

verus! {

/// The shape of an OpenAI body.
#[derive(Debug, Clone, Copy, PartialEq, Eq, Structural)]
pub enum OpenAiShape {
    /// That of the Chat Completions API.
    ChatCompletions,
    /// That of the Responses API.
    Responses,
}

/// Why no key was added.
#[derive(Debug, Clone, Copy, PartialEq, Eq, Structural)]
pub enum SkipReason {
    /// The client has set a key of its own.
    KeyPresent,
    /// The body is not a JSON object.
    NotAnObject,
}

/// What an attempt to add a key has done.
#[derive(Debug)]
pub enum InjectOutcome {
    /// A key was added.
    Applied {
        /// The first characters of the key.
        key_prefix: String,
    },
    /// The body was left alone.
    Skipped {
        /// Why.
        reason: SkipReason,
    },
}

/// The shape of the bodies of `endpoint`, where they are OpenAI's.
pub open spec fn shape_of(endpoint: CompressibleEndpoint) -> Option<OpenAiShape> {
    match endpoint {
        CompressibleEndpoint::AnthropicMessages => None,
        CompressibleEndpoint::OpenAiChatCompletions => Some(OpenAiShape::ChatCompletions),
        CompressibleEndpoint::OpenAiResponses => Some(OpenAiShape::Responses),
    }
}

/// The shape of the bodies of `endpoint`.
pub fn openai_shape(endpoint: CompressibleEndpoint) -> (r: Option<OpenAiShape>)
    ensures
        r == shape_of(endpoint),
{
    match endpoint {
        CompressibleEndpoint::AnthropicMessages => None,
        CompressibleEndpoint::OpenAiChatCompletions => Some(OpenAiShape::ChatCompletions),
        CompressibleEndpoint::OpenAiResponses => Some(OpenAiShape::Responses),
    }
}

/// What there is to report of a body that might have got a key.
#[derive(Debug)]
pub enum InjectRecord {
    /// The client does not pay by use.
    OtherAuthMode,
    /// The body is not JSON.
    NotJson,
    /// A key was added.
    Applied {
        /// The first characters of the key.
        key_prefix: String,
    },
    /// A key was added, but the changed body could not be written.
    WriteFailed,
    /// No key was added.
    Skipped {
        /// Why not.
        reason: SkipReason,
    },
}

/// A body, and what there is to report of it.
#[derive(Debug)]
pub struct Injected {
    /// The body.
    pub body: Bytes,
    /// What there is to report.
    pub record: InjectRecord,
}

/// The body after an attempt to add a key: what was written of the changed
/// value, or else the body that came.
pub open spec fn body_after(body: Seq<u8>, applied: bool, written: Option<Seq<u8>>) -> Seq<u8> {
    match written {
        Some(bytes) if applied => bytes,
        _ => body,
    }
}

/// The report after an attempt to add a key.
pub open spec fn record_after(outcome: InjectOutcome, written: Option<Seq<u8>>) -> InjectRecord {
    match outcome {
        InjectOutcome::Applied { key_prefix } => if written is Some {
            InjectRecord::Applied { key_prefix }
        } else {
            InjectRecord::WriteFailed
        },
        InjectOutcome::Skipped { reason } => InjectRecord::Skipped { reason },
    }
}

/// The body after an attempt to add a key that ended with `outcome` and left
/// the value `changed`.
pub fn injected_body(body: Bytes, outcome: InjectOutcome, changed: &Value) -> (r: Injected)
    ensures
        content(r.body) == body_after(content(body), outcome is Applied, json_written(*changed)),
        r.record == record_after(outcome, json_written(*changed)),
{
    match outcome {
        InjectOutcome::Applied { key_prefix } => match write_json(changed) {
            Ok(bytes) => Injected {
                body: bytes_from_vec(bytes),
                record: InjectRecord::Applied { key_prefix },
            },
            Err(_) => Injected { body, record: InjectRecord::WriteFailed },
        },
        InjectOutcome::Skipped { reason } => Injected {
            body,
            record: InjectRecord::Skipped { reason },
        },
    }
}

/// Whether `r` is what becomes of `body` under `inject`: the body itself for
/// clients that do not pay by use and where it is not JSON; otherwise what
/// `inject` makes of the very value that the body holds.
pub open spec fn is_injected<F: FnOnce(Value, OpenAiShape) -> (InjectOutcome, Value)>(
    r: Seq<u8>,
    body: Seq<u8>,
    shape: OpenAiShape,
    auth_mode: AuthMode,
    inject: F,
) -> bool {
    match json_value(body) {
        Some(v) if auth_mode == AuthMode::Payg => exists|done: (InjectOutcome, Value)|
            {
                &&& #[trigger] inject.ensures((v, shape), done)
                &&& r == body_after(body, done.0 is Applied, json_written(done.1))
            },
        _ => r == body,
    }
}

/// Whether `r` is the body that `body` becomes under `inject`, with its report.
pub open spec fn is_reported<F: FnOnce(Value, OpenAiShape) -> (InjectOutcome, Value)>(
    r: Injected,
    body: Seq<u8>,
    shape: OpenAiShape,
    auth_mode: AuthMode,
    inject: F,
) -> bool {
    if auth_mode != AuthMode::Payg {
        content(r.body) == body && r.record == InjectRecord::OtherAuthMode
    } else {
        match json_value(body) {
            Some(v) => exists|done: (InjectOutcome, Value)|
                {
                    &&& #[trigger] inject.ensures((v, shape), done)
                    &&& content(r.body) == body_after(
                        body,
                        done.0 is Applied,
                        json_written(done.1),
                    )
                    &&& r.record == record_after(done.0, json_written(done.1))
                },
            None => content(r.body) == body && r.record == InjectRecord::NotJson,
        }
    }
}

/// Adds a prompt cache key to an OpenAI body, where the client pays by use and
/// the body is JSON, and tells what was done. `inject` adds the key to the parsed
/// body, or skips it.
pub fn inject_and_report<F: FnOnce(Value, OpenAiShape) -> (InjectOutcome, Value)>(
    body: Bytes,
    shape: OpenAiShape,
    auth_mode: AuthMode,
    inject: F,
) -> (r: Injected)
    requires
        forall|v: Value| #[trigger] inject.requires((v, shape)),
    ensures
        is_reported(r, content(body), shape, auth_mode, inject),
        is_injected(content(r.body), content(body), shape, auth_mode, inject),
{
    if auth_mode != AuthMode::Payg {
        return Injected { body, record: InjectRecord::OtherAuthMode };
    }
    match parse_json(as_slice(&body)) {
        Ok(parsed) => {
            let (outcome, changed) = inject(parsed, shape);
            injected_body(body, outcome, &changed)
        },
        Err(_) => Injected { body, record: InjectRecord::NotJson },
    }
}

/// Adds a prompt cache key to an OpenAI body, where the client pays by use and
/// the body is JSON. `inject` adds the key to the parsed body, or skips it.
pub fn maybe_inject_openai_prompt_cache_key<
    F: FnOnce(Value, OpenAiShape) -> (InjectOutcome, Value),
>(body: Bytes, shape: OpenAiShape, auth_mode: AuthMode, inject: F) -> (r: Bytes)
    requires
        forall|v: Value| #[trigger] inject.requires((v, shape)),
    ensures
        is_injected(content(r), content(body), shape, auth_mode, inject),
{
    inject_and_report(body, shape, auth_mode, inject).body
}

/// Clients that do not pay by use get their body through byte for byte,
/// whatever the injector would do.
pub proof fn law_only_payg_bodies_change<F: FnOnce(Value, OpenAiShape) -> (InjectOutcome, Value)>(
    r: Seq<u8>,
    body: Seq<u8>,
    shape: OpenAiShape,
    auth_mode: AuthMode,
    inject: F,
)
    requires
        is_injected(r, body, shape, auth_mode, inject),
        auth_mode != AuthMode::Payg,
    ensures
        r == body,
{
}

/// A body that is not JSON gets through byte for byte.
pub proof fn law_malformed_bodies_are_kept<
    F: FnOnce(Value, OpenAiShape) -> (InjectOutcome, Value),
>(r: Seq<u8>, body: Seq<u8>, shape: OpenAiShape, auth_mode: AuthMode, inject: F)
    requires
        is_injected(r, body, shape, auth_mode, inject),
        json_value(body) is None,
    ensures
        r == body,
{
}

/// A body gets through byte for byte under an injector that skips it, such as
/// one that finds a key of the client's own.
pub proof fn law_skipped_bodies_are_kept<F: FnOnce(Value, OpenAiShape) -> (InjectOutcome, Value)>(
    r: Seq<u8>,
    body: Seq<u8>,
    shape: OpenAiShape,
    auth_mode: AuthMode,
    inject: F,
)
    requires
        is_injected(r, body, shape, auth_mode, inject),
        forall|v: Value, done: (InjectOutcome, Value)|
            json_value(body) == Some(v) && #[trigger] inject.ensures((v, shape), done)
                ==> done.0 is Skipped,
    ensures
        r == body,
{
}

/// Whether an injector always does the same with a value, and skips every body
/// that it has written itself, as one does that skips bodies with a key.
pub open spec fn skips_its_own<F: FnOnce(Value, OpenAiShape) -> (InjectOutcome, Value)>(
    shape: OpenAiShape,
    inject: F,
) -> bool {
    &&& forall|v: Value, a: (InjectOutcome, Value), b: (InjectOutcome, Value)|
        #[trigger] inject.ensures((v, shape), a) && #[trigger] inject.ensures((v, shape), b) ==> a
            == b
    &&& forall|v: Value, a: (InjectOutcome, Value), w: Value, b: (InjectOutcome, Value)|
        #[trigger] inject.ensures((v, shape), a) && a.0 is Applied && (json_written(
            a.1,
        ) matches Some(bytes) && json_value(bytes) == Some(w)) && #[trigger] inject.ensures(
            (w, shape),
            b,
        ) ==> b.0 is Skipped
}

/// A second pass never changes what the first has produced.
pub proof fn law_second_pass_changes_nothing<
    F: FnOnce(Value, OpenAiShape) -> (InjectOutcome, Value),
>(
    body: Seq<u8>,
    once: Seq<u8>,
    twice: Seq<u8>,
    shape: OpenAiShape,
    auth_mode: AuthMode,
    inject: F,
)
    requires
        is_injected(once, body, shape, auth_mode, inject),
        is_injected(twice, once, shape, auth_mode, inject),
        skips_its_own(shape, inject),
    ensures
        twice == once,
{
    if auth_mode == AuthMode::Payg && json_value(body) is Some && json_value(once) is Some {
        let v = json_value(body)->Some_0;
        let w = json_value(once)->Some_0;
        let a = choose|done: (InjectOutcome, Value)|
            {
                &&& #[trigger] inject.ensures((v, shape), done)
                &&& once == body_after(body, done.0 is Applied, json_written(done.1))
            };
        let b = choose|done: (InjectOutcome, Value)|
            {
                &&& #[trigger] inject.ensures((w, shape), done)
                &&& twice == body_after(once, done.0 is Applied, json_written(done.1))
            };
        if a.0 is Applied && json_written(a.1) is Some {
            assert(b.0 is Skipped);
        } else {
            assert(once == body);
            assert(a == b);
        }
    }
}

/// Exactly the OpenAI endpoints have an OpenAI shape, each its own.
pub proof fn law_shapes_belong_to_endpoints(endpoint: CompressibleEndpoint)
    ensures
        shape_of(endpoint) is None <==> endpoint == CompressibleEndpoint::AnthropicMessages,
        shape_of(endpoint) == Some(OpenAiShape::ChatCompletions) <==> endpoint
            == CompressibleEndpoint::OpenAiChatCompletions,
        shape_of(endpoint) == Some(OpenAiShape::Responses) <==> endpoint
            == CompressibleEndpoint::OpenAiResponses,
{
}

/// Where the client pays by use and the injector adds a key to the value that the
/// body holds, what goes on is the changed value as it is written.
pub proof fn law_keyed_bodies_go_on<F: FnOnce(Value, OpenAiShape) -> (InjectOutcome, Value)>(
    r: Seq<u8>,
    body: Seq<u8>,
    shape: OpenAiShape,
    inject: F,
    v: Value,
    written: Seq<u8>,
)
    requires
        is_injected(r, body, shape, AuthMode::Payg, inject),
        json_value(body) == Some(v),
        forall|done: (InjectOutcome, Value)| #[trigger]
            inject.ensures((v, shape), done) ==> done.0 is Applied && json_written(done.1) == Some(
                written,
            ),
    ensures
        r == written,
{
}

/// Where the changed value cannot be written, the body goes on as it came.
pub proof fn law_unwritable_bodies_are_kept<
    F: FnOnce(Value, OpenAiShape) -> (InjectOutcome, Value),
>(r: Seq<u8>, body: Seq<u8>, shape: OpenAiShape, auth_mode: AuthMode, inject: F, v: Value)
    requires
        is_injected(r, body, shape, auth_mode, inject),
        json_value(body) == Some(v),
        forall|done: (InjectOutcome, Value)| #[trigger]
            inject.ensures((v, shape), done) ==> json_written(done.1) is None,
    ensures
        r == body,
{
}

/// A report tells what was done: whose body is not looked at, which is not JSON,
/// which is left alone and why, and which has got which key. Only in the last
/// case has the body changed.
pub proof fn law_reports_tell_what_was_done<
    F: FnOnce(Value, OpenAiShape) -> (InjectOutcome, Value),
>(r: Injected, body: Seq<u8>, shape: OpenAiShape, auth_mode: AuthMode, inject: F)
    requires
        is_reported(r, body, shape, auth_mode, inject),
    ensures
        r.record == InjectRecord::OtherAuthMode <==> auth_mode != AuthMode::Payg,
        r.record == InjectRecord::NotJson <==> auth_mode == AuthMode::Payg && json_value(
            body,
        ) is None,
        !(r.record is Applied) ==> content(r.body) == body,
        r.record matches InjectRecord::Applied { key_prefix } ==> (json_value(body) matches Some(v)
            && exists|changed: Value| #[trigger]
            inject.ensures((v, shape), (InjectOutcome::Applied { key_prefix }, changed))
                && json_written(changed) == Some(content(r.body))),
        r.record matches InjectRecord::Skipped { reason } ==> (json_value(body) matches Some(v)
            && exists|same: Value| #[trigger]
            inject.ensures((v, shape), (InjectOutcome::Skipped { reason }, same))),
        r.record == InjectRecord::WriteFailed ==> (json_value(body) matches Some(v)
            && exists|done: (InjectOutcome, Value)| #[trigger]
            inject.ensures((v, shape), done) && done.0 is Applied && json_written(done.1) is None),
        is_injected(content(r.body), body, shape, auth_mode, inject),
{
    if auth_mode == AuthMode::Payg && json_value(body) is Some {
        let v = json_value(body)->Some_0;
        let done = choose|done: (InjectOutcome, Value)|
            {
                &&& #[trigger] inject.ensures((v, shape), done)
                &&& content(r.body) == body_after(body, done.0 is Applied, json_written(done.1))
                &&& r.record == record_after(done.0, json_written(done.1))
            };
        if let InjectRecord::Applied { key_prefix } = r.record {
            assert(inject.ensures((v, shape), (InjectOutcome::Applied { key_prefix }, done.1)));
        }
        if let InjectRecord::Skipped { reason } = r.record {
            assert(inject.ensures((v, shape), (InjectOutcome::Skipped { reason }, done.1)));
        }
    }
}

} // verus!
