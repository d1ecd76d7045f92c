//! Reports on finished streams.

use headroom_proxy::telemetry::{
    cache_sample, chat_sample, close_responses, next_step, responses_sample, CacheSample,
    ReaderEvent, ReaderStep,
};
use serde_json::Value;

fn json(text: &str) -> Value {
    serde_json::from_str(text).unwrap()
}

#[test]
fn chat_usage_is_parted_by_the_cache() {
    let usage = json(r#"{"prompt_tokens":10,"prompt_tokens_details":{"cached_tokens":4}}"#);
    assert_eq!(
        chat_sample(Some(&usage)),
        CacheSample::Sample {
            non_cached: 6,
            cached: 4
        }
    );
    assert_eq!(chat_sample(None), CacheSample::NoUsage);
}

#[test]
fn missing_counts_are_zero() {
    let sample = |non_cached, cached| CacheSample::Sample { non_cached, cached };
    assert_eq!(chat_sample(Some(&json("{}"))), sample(0, 0));
    assert_eq!(
        chat_sample(Some(&json(r#"{"prompt_tokens":3}"#))),
        sample(3, 0)
    );
    assert_eq!(
        chat_sample(Some(&json(
            r#"{"prompt_tokens":"3","prompt_tokens_details":[1]}"#
        ))),
        sample(0, 0)
    );
    assert_eq!(
        chat_sample(Some(&json(
            r#"{"prompt_tokens":3,"prompt_tokens_details":{"cached_tokens":-1}}"#
        ))),
        sample(3, 0)
    );
}

#[test]
fn contradicting_counts_give_no_sample() {
    let usage = json(r#"{"prompt_tokens":4,"prompt_tokens_details":{"cached_tokens":5}}"#);
    assert_eq!(
        chat_sample(Some(&usage)),
        CacheSample::CachedExceedsInput {
            input: 4,
            cached: 5
        }
    );
    assert_eq!(
        cache_sample(5, 5),
        CacheSample::Sample {
            non_cached: 0,
            cached: 5
        }
    );
    assert_eq!(
        cache_sample(u64::MAX, 0),
        CacheSample::Sample {
            non_cached: u64::MAX,
            cached: 0
        }
    );
}

#[test]
fn responses_usage_counts_once_the_response_has_ended() {
    let usage = json(r#"{"input_tokens":8,"input_tokens_details":{"cached_tokens":8}}"#);
    assert_eq!(
        responses_sample(Some("completed"), Some(&usage)),
        CacheSample::Sample {
            non_cached: 0,
            cached: 8
        }
    );
    assert_eq!(
        responses_sample(None, Some(&usage)),
        CacheSample::Incomplete
    );
    assert_eq!(responses_sample(None, None), CacheSample::Incomplete);
    assert_eq!(
        responses_sample(Some("failed"), None),
        CacheSample::NoUsage
    );
    // The chat API's names mean nothing here.
    let usage = json(r#"{"prompt_tokens":10}"#);
    assert_eq!(
        responses_sample(Some("completed"), Some(&usage)),
        CacheSample::Sample {
            non_cached: 0,
            cached: 0
        }
    );
}

#[test]
fn readers_stop_at_the_end_only() {
    assert_eq!(next_step(ReaderEvent::Chunk), ReaderStep::NextEvent);
    assert_eq!(next_step(ReaderEvent::Applied), ReaderStep::NextEvent);
    assert_eq!(next_step(ReaderEvent::NotApplied), ReaderStep::NextEvent);
    assert_eq!(next_step(ReaderEvent::Malformed), ReaderStep::NextEvent);
    assert_eq!(next_step(ReaderEvent::NoEvent), ReaderStep::AwaitChunk);
    assert_eq!(next_step(ReaderEvent::EndOfStream), ReaderStep::Close);
}

#[test]
fn broken_streams_record_nothing() {
    let usage = json(r#"{"input_tokens":2}"#);
    let records = close_responses(None, Some("why"), Some("flex"), Some(&usage));
    assert_eq!(records.cache, CacheSample::Incomplete);
    assert_eq!(records.service_tier, None);
    assert_eq!(records.status, None);
    assert_eq!(records.incomplete_reason, None);
    let records = close_responses(Some("incomplete"), Some("why"), Some("flex"), Some(&usage));
    assert_eq!(
        records.cache,
        CacheSample::Sample {
            non_cached: 2,
            cached: 0
        }
    );
    assert_eq!(records.service_tier.as_deref(), Some("flex"));
    assert_eq!(records.status.as_deref(), Some("incomplete"));
    assert_eq!(records.incomplete_reason.as_deref(), Some("why"));
}
