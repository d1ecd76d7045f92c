//! How a stream of server-sent events is read along with its way to the client,
//! and what is reported of it once it has ended.

use crate::outside::json_api::{json_member, json_tree, root, JsonNode, JsonTree};
use crate::text::optional_view;
use serde_json::Value;
use vstd::prelude::*;

verus! {

/// What the reader of a stream does next.
#[derive(Debug, Clone, Copy, PartialEq, Eq, Structural)]
pub enum ReaderStep {
    /// Waits for a chunk of bytes.
    AwaitChunk,
    /// Asks for the next event in the bytes that have come.
    NextEvent,
    /// Reports on the stream and ends.
    Close,
}

/// What the reader of a stream has met.
#[derive(Debug, Clone, Copy, PartialEq, Eq, Structural)]
pub enum ReaderEvent {
    /// A chunk of bytes.
    Chunk,
    /// The end of the stream.
    EndOfStream,
    /// A whole event, taken in.
    Applied,
    /// A whole event that could not be taken in.
    NotApplied,
    /// Bytes that are no event.
    Malformed,
    /// No whole event.
    NoEvent,
}

/// What the reader does after `event`.
pub open spec fn step_after(event: ReaderEvent) -> ReaderStep {
    match event {
        ReaderEvent::Chunk => ReaderStep::NextEvent,
        ReaderEvent::EndOfStream => ReaderStep::Close,
        ReaderEvent::Applied => ReaderStep::NextEvent,
        ReaderEvent::NotApplied => ReaderStep::NextEvent,
        ReaderEvent::Malformed => ReaderStep::NextEvent,
        ReaderEvent::NoEvent => ReaderStep::AwaitChunk,
    }
}

/// What the reader does after `event`.
pub fn next_step(event: ReaderEvent) -> (r: ReaderStep)
    ensures
        r == step_after(event),
{
    match event {
        ReaderEvent::Chunk | ReaderEvent::Applied | ReaderEvent::NotApplied
        | ReaderEvent::Malformed => ReaderStep::NextEvent,
        ReaderEvent::EndOfStream => ReaderStep::Close,
        ReaderEvent::NoEvent => ReaderStep::AwaitChunk,
    }
}

/// The reader ends with the stream and not before: no event, good or bad, makes
/// it stop.
pub proof fn law_only_the_end_closes(event: ReaderEvent)
    ensures
        step_after(event) == ReaderStep::Close <==> event == ReaderEvent::EndOfStream,
{
}

/// The reader asks for more bytes only once it has taken every event from those
/// that it has.
pub proof fn law_events_come_before_bytes(event: ReaderEvent)
    ensures
        step_after(event) == ReaderStep::AwaitChunk <==> event == ReaderEvent::NoEvent,
{
}

/// What the usage of a stream says of the cache.
#[derive(Debug, Clone, Copy, PartialEq, Eq, Structural)]
pub enum CacheSample {
    /// The stream ended before its response did.
    Incomplete,
    /// The stream reported no usage.
    NoUsage,
    /// More tokens are said to be cached than were given.
    CachedExceedsInput {
        /// The tokens given.
        input: u64,
        /// The tokens said to be cached.
        cached: u64,
    },
    /// A sample: the tokens given, parted by whether they were cached.
    Sample {
        /// The tokens that were not cached.
        non_cached: u64,
        /// The tokens that were cached.
        cached: u64,
    },
}

/// The count at `place` in a JSON value; zero where there is none.
pub open spec fn count_at(tree: JsonTree, place: Seq<Seq<char>>) -> u64 {
    if tree.contains_key(place) {
        match tree[place] {
            JsonNode::Count(n) => n,
            _ => 0,
        }
    } else {
        0
    }
}

/// The count that the member `key` of `v` holds; zero where there is none.
pub fn member_count(v: &Value, key: &str) -> (r: u64)
    ensures
        r == count_at(json_tree(*v), seq![key@]),
{
    match json_member(v, key) {
        Some(member) => {
            assert(seq![key@] + root() =~= seq![key@]);
            match member.as_u64() {
                Some(n) => n,
                None => 0,
            }
        },
        None => 0,
    }
}

/// The count at the member `inner` of the member `outer` of a JSON value; zero
/// where there is none.
pub open spec fn nested_count_at(tree: JsonTree, outer: Seq<char>, inner: Seq<char>) -> u64 {
    if tree.contains_key(seq![outer]) {
        count_at(tree, seq![outer, inner])
    } else {
        0
    }
}

/// The count that the member `inner` of the member `outer` of `v` holds; zero
/// where there is none.
pub fn nested_count(v: &Value, outer: &str, inner: &str) -> (r: u64)
    ensures
        r == nested_count_at(json_tree(*v), outer@, inner@),
{
    match json_member(v, outer) {
        Some(member) => {
            assert(seq![outer@] + seq![inner@] =~= seq![outer@, inner@]);
            member_count(member, inner)
        },
        None => 0,
    }
}

/// The sample for `input` tokens of which `cached` were cached. Counts that
/// contradict each other give none.
pub open spec fn sample_of(input: u64, cached: u64) -> CacheSample {
    if cached > input {
        CacheSample::CachedExceedsInput { input, cached }
    } else {
        CacheSample::Sample { non_cached: (input - cached) as u64, cached }
    }
}

/// The sample for `input` tokens of which `cached` were cached.
pub fn cache_sample(input: u64, cached: u64) -> (r: CacheSample)
    ensures
        r == sample_of(input, cached),
{
    if cached > input {
        CacheSample::CachedExceedsInput { input, cached }
    } else {
        CacheSample::Sample { non_cached: input - cached, cached }
    }
}

/// The sample that the usage of a Chat Completions stream gives.
pub open spec fn chat_sample_of(usage: Option<JsonTree>) -> CacheSample {
    match usage {
        Some(tree) => sample_of(
            count_at(tree, seq!["prompt_tokens"@]),
            nested_count_at(tree, "prompt_tokens_details"@, "cached_tokens"@),
        ),
        None => CacheSample::NoUsage,
    }
}

/// What a JSON value holds, where there is one.
pub open spec fn optional_tree(v: Option<&Value>) -> Option<JsonTree> {
    match v {
        Some(v) => Some(json_tree(*v)),
        None => None,
    }
}

/// The sample that the usage of a Chat Completions stream gives. The upstream
/// reports usage only at the end of a stream, and only where it is asked to.
pub fn chat_sample(usage: Option<&Value>) -> (r: CacheSample)
    ensures
        r == chat_sample_of(optional_tree(usage)),
{
    match usage {
        Some(usage) => cache_sample(
            member_count(usage, "prompt_tokens"),
            nested_count(usage, "prompt_tokens_details", "cached_tokens"),
        ),
        None => CacheSample::NoUsage,
    }
}

/// The sample that the usage of a Responses stream gives, where `completed`
/// says whether the response had ended.
pub open spec fn responses_sample_of(completed: bool, usage: Option<JsonTree>) -> CacheSample {
    if completed {
        match usage {
            Some(tree) => sample_of(
                count_at(tree, seq!["input_tokens"@]),
                nested_count_at(tree, "input_tokens_details"@, "cached_tokens"@),
            ),
            None => CacheSample::NoUsage,
        }
    } else {
        CacheSample::Incomplete
    }
}

/// The sample that the usage of a Responses stream gives. `terminal_status` is
/// the status with which the response ended, where it did.
pub fn responses_sample(terminal_status: Option<&str>, usage: Option<&Value>) -> (r: CacheSample)
    ensures
        r == responses_sample_of(terminal_status is Some, optional_tree(usage)),
{
    match terminal_status {
        Some(_) => match usage {
            Some(usage) => cache_sample(
                member_count(usage, "input_tokens"),
                nested_count(usage, "input_tokens_details", "cached_tokens"),
            ),
            None => CacheSample::NoUsage,
        },
        None => CacheSample::Incomplete,
    }
}

/// What is recorded of a Responses stream.
#[derive(Debug)]
pub struct ResponsesRecords {
    /// What its usage says of the cache.
    pub cache: CacheSample,
    /// The service tier.
    pub service_tier: Option<String>,
    /// The status with which the response ended.
    pub status: Option<String>,
    /// Why the response is incomplete, where it is.
    pub incomplete_reason: Option<String>,
}

/// A text where `ended` holds, else none.
pub open spec fn at_the_end(ended: bool, text: Option<Seq<char>>) -> Option<Seq<char>> {
    if ended {
        text
    } else {
        None
    }
}

/// A text that may be absent, as characters.
pub open spec fn owned_view(s: Option<String>) -> Option<Seq<char>> {
    match s {
        Some(t) => Some(t@),
        None => None,
    }
}

fn owned(s: Option<&str>) -> (r: Option<String>)
    ensures
        owned_view(r) == optional_view(s),
{
    match s {
        Some(t) => Some(t.to_owned()),
        None => None,
    }
}

/// What is recorded of a Responses stream at its end. `terminal_status` is the
/// status with which the response ended, where it did; a stream that broke off
/// before that records nothing.
pub fn close_responses(
    terminal_status: Option<&str>,
    incomplete_reason: Option<&str>,
    service_tier: Option<&str>,
    usage: Option<&Value>,
) -> (r: ResponsesRecords)
    ensures
        r.cache == responses_sample_of(terminal_status is Some, optional_tree(usage)),
        owned_view(r.status) == optional_view(terminal_status),
        owned_view(r.service_tier) == at_the_end(
            terminal_status is Some,
            optional_view(service_tier),
        ),
        owned_view(r.incomplete_reason) == at_the_end(
            terminal_status is Some,
            optional_view(incomplete_reason),
        ),
{
    let cache = responses_sample(terminal_status, usage);
    match terminal_status {
        Some(_) => ResponsesRecords {
            cache,
            service_tier: owned(service_tier),
            status: owned(terminal_status),
            incomplete_reason: owned(incomplete_reason),
        },
        None => ResponsesRecords {
            cache,
            service_tier: None,
            status: None,
            incomplete_reason: None,
        },
    }
}

/// The two parts of a sample add up to the tokens given, so the cached part is
/// never more than the whole.
pub proof fn law_sample_adds_up(input: u64, cached: u64)
    ensures
        match sample_of(input, cached) {
            CacheSample::Sample { non_cached, cached: counted } => counted == cached && non_cached
                + counted == input,
            _ => true,
        },
{
}

/// Contradicting counts are never made to fit: there is a sample exactly where
/// no more tokens are cached than were given.
pub proof fn law_counts_are_not_clamped(input: u64, cached: u64)
    ensures
        sample_of(input, cached) is Sample <==> cached <= input,
        sample_of(input, cached) is CachedExceedsInput <==> cached > input,
{
}

/// A Responses stream that broke off gives no sample, whatever usage it had
/// reported.
pub proof fn law_broken_streams_give_no_sample(usage: Option<JsonTree>)
    ensures
        responses_sample_of(false, usage) == CacheSample::Incomplete,
{
}

/// A stream without usage gives no sample.
pub proof fn law_no_usage_gives_no_sample(completed: bool)
    ensures
        chat_sample_of(None) == CacheSample::NoUsage,
        responses_sample_of(true, None) == CacheSample::NoUsage,
        !(responses_sample_of(completed, None) is Sample),
{
}

/// A count is the number at its place, whatever stands at any other; where there
/// is no number, it is zero.
pub proof fn law_counts_are_what_stands_there(
    a: JsonTree,
    b: JsonTree,
    place: Seq<Seq<char>>,
    n: u64,
)
    requires
        a.contains_key(place) == b.contains_key(place),
        a.contains_key(place) ==> a[place] == b[place],
    ensures
        count_at(a, place) == count_at(b, place),
        a.contains_key(place) && a[place] == JsonNode::Count(n) ==> count_at(a, place) == n,
        !a.contains_key(place) || !(a[place] is Count) ==> count_at(a, place) == 0,
{
}

/// A count inside a member is the number at that place; without the member it is
/// zero.
pub proof fn law_nested_counts_are_what_stands_there(
    tree: JsonTree,
    outer: Seq<char>,
    inner: Seq<char>,
    n: u64,
)
    ensures
        tree.contains_key(seq![outer]) && tree.contains_key(seq![outer, inner]) && tree[seq![
            outer,
            inner,
        ]] == JsonNode::Count(n) ==> nested_count_at(tree, outer, inner) == n,
        !tree.contains_key(seq![outer]) || !tree.contains_key(seq![outer, inner]) || !(tree[seq![
            outer,
            inner,
        ]] is Count) ==> nested_count_at(tree, outer, inner) == 0,
{
}

/// The usage of a chat stream that reports `input` prompt tokens, `cached` of
/// them cached, gives these counts, whatever else it reports.
pub proof fn law_chat_usage_is_counted(tree: JsonTree, input: u64, cached: u64)
    requires
        tree.contains_key(seq!["prompt_tokens"@]),
        tree[seq!["prompt_tokens"@]] == JsonNode::Count(input),
        tree.contains_key(seq!["prompt_tokens_details"@]),
        tree.contains_key(seq!["prompt_tokens_details"@, "cached_tokens"@]),
        tree[seq!["prompt_tokens_details"@, "cached_tokens"@]] == JsonNode::Count(cached),
    ensures
        cached <= input ==> (chat_sample_of(Some(tree)) matches CacheSample::Sample {
            non_cached,
            cached: counted,
        } && counted == cached && non_cached + cached == input),
        cached > input ==> chat_sample_of(Some(tree)) == (CacheSample::CachedExceedsInput {
            input,
            cached,
        }),
{
}

/// The usage of a chat stream without cached tokens counts all its tokens as not
/// cached.
pub proof fn law_chat_usage_without_cache(tree: JsonTree, input: u64)
    requires
        tree.contains_key(seq!["prompt_tokens"@]),
        tree[seq!["prompt_tokens"@]] == JsonNode::Count(input),
        !tree.contains_key(seq!["prompt_tokens_details"@]),
    ensures
        chat_sample_of(Some(tree)) == (CacheSample::Sample { non_cached: input, cached: 0 }),
{
}

/// The usage of a Responses stream that has ended and reports `input` tokens,
/// `cached` of them cached, gives these counts, whatever else it reports.
pub proof fn law_responses_usage_is_counted(tree: JsonTree, input: u64, cached: u64)
    requires
        tree.contains_key(seq!["input_tokens"@]),
        tree[seq!["input_tokens"@]] == JsonNode::Count(input),
        tree.contains_key(seq!["input_tokens_details"@]),
        tree.contains_key(seq!["input_tokens_details"@, "cached_tokens"@]),
        tree[seq!["input_tokens_details"@, "cached_tokens"@]] == JsonNode::Count(cached),
    ensures
        cached <= input ==> (responses_sample_of(true, Some(tree)) matches CacheSample::Sample {
            non_cached,
            cached: counted,
        } && counted == cached && non_cached + cached == input),
        cached > input ==> responses_sample_of(true, Some(tree))
            == (CacheSample::CachedExceedsInput { input, cached }),
{
}

/// The usage of a Responses stream without cached tokens counts all its tokens as
/// not cached.
pub proof fn law_responses_usage_without_cache(tree: JsonTree, input: u64)
    requires
        tree.contains_key(seq!["input_tokens"@]),
        tree[seq!["input_tokens"@]] == JsonNode::Count(input),
        !tree.contains_key(seq!["input_tokens_details"@]),
    ensures
        responses_sample_of(true, Some(tree)) == (CacheSample::Sample {
            non_cached: input,
            cached: 0,
        }),
{
}

/// A sample depends only on the two counts that it is made of.
pub proof fn law_only_two_counts_matter(a: JsonTree, b: JsonTree, completed: bool)
    ensures
        count_at(a, seq!["prompt_tokens"@]) == count_at(b, seq!["prompt_tokens"@])
            && nested_count_at(a, "prompt_tokens_details"@, "cached_tokens"@) == nested_count_at(
            b,
            "prompt_tokens_details"@,
            "cached_tokens"@,
        ) ==> chat_sample_of(Some(a)) == chat_sample_of(Some(b)),
        count_at(a, seq!["input_tokens"@]) == count_at(b, seq!["input_tokens"@])
            && nested_count_at(a, "input_tokens_details"@, "cached_tokens"@) == nested_count_at(
            b,
            "input_tokens_details"@,
            "cached_tokens"@,
        ) ==> responses_sample_of(completed, Some(a)) == responses_sample_of(completed, Some(b)),
{
}

/// Contradicting counts are reported as they are.
pub proof fn law_contradictions_are_reported(input: u64, cached: u64)
    requires
        cached > input,
    ensures
        sample_of(input, cached) == (CacheSample::CachedExceedsInput { input, cached }),
{
}

/// Once a response has ended every text is recorded as it is, before that none.
pub proof fn law_texts_are_recorded_at_the_end(text: Option<Seq<char>>)
    ensures
        at_the_end(true, text) == text,
        at_the_end(false, text) is None,
{
}

/// After everything but the end of the stream and the lack of an event, the
/// reader asks for the next event.
pub proof fn law_readers_go_on(event: ReaderEvent)
    ensures
        step_after(event) == ReaderStep::NextEvent <==> event != ReaderEvent::EndOfStream && event
            != ReaderEvent::NoEvent,
{
}

/// A usage that is there is read as it stands, and one that is not is missed; the
/// same holds of texts.
pub proof fn law_what_is_there_is_read(v: Value, text: String)
    ensures
        optional_tree(Some(&v)) == Some(json_tree(v)),
        optional_tree(None) is None,
        owned_view(Some(text)) == Some(text@),
        owned_view(None) is None,
{
}

} // verus!
