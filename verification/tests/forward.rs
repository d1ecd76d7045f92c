//! What becomes of buffered bodies.

use bytes::Bytes;
use headroom_proxy::cache_key::{
    inject_and_report, injected_body, maybe_inject_openai_prompt_cache_key, openai_shape,
    InjectOutcome, InjectRecord, OpenAiShape, SkipReason,
};
use headroom_proxy::dispatch::{
    api_kind, compressor_for, observed_body, passthrough_delta, ratio_samples, settle_body,
    ApiKind, Compressor, Outcome, StrategyTokens,
};
use headroom_proxy::forward::prepare_body;
use headroom_proxy::request::{AuthMode, CompressibleEndpoint};
use serde_json::Value;

const ANTHROPIC: CompressibleEndpoint = CompressibleEndpoint::AnthropicMessages;
const CHAT: CompressibleEndpoint = CompressibleEndpoint::OpenAiChatCompletions;
const RESPONSES: CompressibleEndpoint = CompressibleEndpoint::OpenAiResponses;

fn add_key(mut v: Value, shape: OpenAiShape) -> (InjectOutcome, Value) {
    let key = match shape {
        OpenAiShape::ChatCompletions => "chat",
        OpenAiShape::Responses => "resp",
    };
    match v.as_object_mut() {
        None => (
            InjectOutcome::Skipped {
                reason: SkipReason::NotAnObject,
            },
            v,
        ),
        Some(object) if object.contains_key("prompt_cache_key") => (
            InjectOutcome::Skipped {
                reason: SkipReason::KeyPresent,
            },
            v,
        ),
        Some(object) => {
            object.insert("prompt_cache_key".to_string(), Value::from(key));
            (
                InjectOutcome::Applied {
                    key_prefix: key.to_string(),
                },
                v,
            )
        }
    }
}

fn compressed(body: &'static [u8]) -> Outcome {
    Outcome::Compressed {
        body: Bytes::from_static(body),
        tokens_before: 10,
        tokens_after: 4,
        per_strategy_tokens: vec![],
    }
}

#[test]
fn each_endpoint_has_its_compressor() {
    assert_eq!(compressor_for(ANTHROPIC, true), Some(Compressor::Anthropic));
    assert_eq!(compressor_for(CHAT, false), Some(Compressor::OpenAiChat));
    assert_eq!(compressor_for(CHAT, true), None);
    assert_eq!(
        compressor_for(RESPONSES, true),
        Some(Compressor::OpenAiResponses)
    );
}

#[test]
fn each_endpoint_has_its_api_and_shape() {
    assert_eq!(api_kind(ANTHROPIC), ApiKind::Anthropic);
    assert_eq!(api_kind(CHAT), ApiKind::OpenAiChat);
    assert_eq!(api_kind(RESPONSES), ApiKind::OpenAiResponses);
    assert_eq!(openai_shape(ANTHROPIC), None);
    assert_eq!(openai_shape(CHAT), Some(OpenAiShape::ChatCompletions));
    assert_eq!(openai_shape(RESPONSES), Some(OpenAiShape::Responses));
}

#[test]
fn only_json_bodies_are_observed() {
    let (value, kind) = observed_body(&Bytes::from_static(b"{\"a\":[1]}"), CHAT).unwrap();
    assert_eq!(value["a"][0], Value::from(1));
    assert_eq!(kind, ApiKind::OpenAiChat);
    assert!(observed_body(&Bytes::from_static(b"{\"a\""), CHAT).is_none());
}

#[test]
fn samples_are_per_strategy_where_known() {
    let per = [
        StrategyTokens {
            strategy: "one",
            original_tokens: 9,
            compressed_tokens: 9,
        },
        StrategyTokens {
            strategy: "two",
            original_tokens: 5,
            compressed_tokens: 1,
        },
    ];
    let samples = ratio_samples(&per, 100, 1);
    assert_eq!(samples.len(), 2);
    assert_eq!(
        (samples[0].strategy, samples[0].before, samples[0].after),
        ("one", 9, 9)
    );
    assert_eq!(
        (samples[1].strategy, samples[1].before, samples[1].after),
        ("two", 5, 1)
    );
}

#[test]
fn samples_are_for_the_whole_otherwise() {
    let samples = ratio_samples(&[], 10, 4);
    assert_eq!(samples.len(), 1);
    assert_eq!(
        (samples[0].strategy, samples[0].before, samples[0].after),
        ("aggregate", 10, 4)
    );
    assert!(ratio_samples(&[], 0, 0).is_empty());
    assert!(ratio_samples(&[], 4, 4).is_empty());
    assert!(ratio_samples(&[], 4, 5).is_empty());
}

#[test]
fn changes_of_length_are_measured_both_ways() {
    assert_eq!(passthrough_delta(true, 5, 8), Some(3));
    assert_eq!(passthrough_delta(true, 8, 5), Some(3));
    assert_eq!(passthrough_delta(true, 5, 5), None);
    assert_eq!(passthrough_delta(false, 5, 8), None);
}

#[test]
fn uncompressed_bodies_are_kept() {
    let body = Bytes::from_static(b"{\"a\":1}");
    let settled = settle_body(body.clone(), Outcome::NoCompression);
    assert_eq!(settled.body, body);
    assert_eq!(settled.changed_by, None);
    assert!(settled.samples.is_empty());
    let settled = settle_body(
        body.clone(),
        Outcome::Passthrough {
            reason: "parse".to_string(),
        },
    );
    assert_eq!(settled.body, body);
    assert_eq!(settled.changed_by, None);
    let settled = settle_body(body, compressed(b"short"));
    assert_eq!(settled.body.as_ref(), b"short");
    assert_eq!(settled.changed_by, None);
    assert_eq!(settled.samples.len(), 1);
}

#[test]
fn payg_bodies_get_a_key() {
    let body = Bytes::from_static(b"{ \"a\": 1 }");
    let out = maybe_inject_openai_prompt_cache_key(
        body,
        OpenAiShape::ChatCompletions,
        AuthMode::Payg,
        add_key,
    );
    let v: Value = serde_json::from_slice(&out).unwrap();
    assert_eq!(v["a"], Value::from(1));
    assert_eq!(v["prompt_cache_key"], Value::from("chat"));
}

#[test]
fn other_bodies_get_no_key() {
    let body = Bytes::from_static(b"{ \"a\": 1 }");
    for mode in [AuthMode::OAuth, AuthMode::Subscription] {
        let out = maybe_inject_openai_prompt_cache_key(
            body.clone(),
            OpenAiShape::Responses,
            mode,
            add_key,
        );
        assert_eq!(out, body);
    }
    for kept in [
        "not json",
        " [ 1 ] ",
        "{ \"prompt_cache_key\" : \"own\" }",
    ] {
        let body = Bytes::from_static(kept.as_bytes());
        let out = maybe_inject_openai_prompt_cache_key(
            body.clone(),
            OpenAiShape::Responses,
            AuthMode::Payg,
            add_key,
        );
        assert_eq!(out, body);
    }
}

#[test]
fn skipped_bodies_are_not_written_again() {
    let body = Bytes::from_static(b" {} ");
    let changed: Value = serde_json::from_slice(b"{\"b\":2}").unwrap();
    let skipped = InjectOutcome::Skipped {
        reason: SkipReason::KeyPresent,
    };
    let kept = injected_body(body.clone(), skipped, &changed);
    assert_eq!(kept.body, body);
    assert!(matches!(
        kept.record,
        InjectRecord::Skipped {
            reason: SkipReason::KeyPresent
        }
    ));
    let applied = InjectOutcome::Applied {
        key_prefix: "k".to_string(),
    };
    let written = injected_body(body, applied, &changed);
    assert_eq!(written.body.as_ref(), b"{\"b\":2}");
    assert!(matches!(written.record, InjectRecord::Applied { key_prefix } if key_prefix == "k"));
}

#[test]
fn anthropic_bodies_get_no_key() {
    let body = Bytes::from_static(b"{ \"a\": 1 }");
    let sent = |endpoint| {
        prepare_body(
            endpoint,
            AuthMode::Payg,
            body.clone(),
            Outcome::NoCompression,
            add_key,
        )
    };
    assert_eq!(sent(ANTHROPIC).body, body);
    assert!(sent(ANTHROPIC).injection.is_none());
    assert_eq!(
        sent(RESPONSES).body.as_ref(),
        b"{\"a\":1,\"prompt_cache_key\":\"resp\"}"
    );
    assert!(matches!(
        sent(RESPONSES).injection,
        Some(InjectRecord::Applied { .. })
    ));
}

#[test]
fn a_second_pass_changes_nothing() {
    let shape = OpenAiShape::ChatCompletions;
    for text in ["{ \"messages\": [ { \"role\": \"user\" } ] }", "[]", "not json"] {
        for mode in [AuthMode::Payg, AuthMode::OAuth] {
            let body = Bytes::from_static(text.as_bytes());
            let once = maybe_inject_openai_prompt_cache_key(body, shape, mode, add_key);
            let twice =
                maybe_inject_openai_prompt_cache_key(once.clone(), shape, mode, add_key);
            assert_eq!(once, twice);
        }
    }
}

#[test]
fn the_rest_of_a_body_survives_injection() {
    let body = Bytes::from_static(b"{\"messages\":[{\"c\":[true,null,1.5]},\"x\"],\"n\":-1}");
    let out = maybe_inject_openai_prompt_cache_key(
        body.clone(),
        OpenAiShape::ChatCompletions,
        AuthMode::Payg,
        add_key,
    );
    let mut after: Value = serde_json::from_slice(&out).unwrap();
    after.as_object_mut().unwrap().remove("prompt_cache_key");
    let before: Value = serde_json::from_slice(&body).unwrap();
    assert_eq!(after, before);
}

#[test]
fn injections_are_reported() {
    let report = |text: &'static str, mode| {
        inject_and_report(
            Bytes::from_static(text.as_bytes()),
            OpenAiShape::Responses,
            mode,
            add_key,
        )
        .record
    };
    assert!(matches!(
        report("{}", AuthMode::Subscription),
        InjectRecord::OtherAuthMode
    ));
    assert!(matches!(report("{", AuthMode::Payg), InjectRecord::NotJson));
    assert!(matches!(
        report("[]", AuthMode::Payg),
        InjectRecord::Skipped {
            reason: SkipReason::NotAnObject
        }
    ));
    assert!(matches!(
        report("{}", AuthMode::Payg),
        InjectRecord::Applied { .. }
    ));
}

#[test]
fn bodies_reach_the_upstream_as_they_came() {
    let body = Bytes::from_static(b"{ \"a\" : 1 }");
    for (endpoint, mode) in [
        (ANTHROPIC, AuthMode::Payg),
        (ANTHROPIC, AuthMode::OAuth),
        (CHAT, AuthMode::OAuth),
        (RESPONSES, AuthMode::Subscription),
    ] {
        let sent = prepare_body(
            endpoint,
            mode,
            body.clone(),
            Outcome::NoCompression,
            add_key,
        );
        assert_eq!(sent.body, body);
        assert_eq!(sent.changed_by, None);
    }
}

#[test]
fn compressed_bodies_can_still_get_a_key() {
    let sent = prepare_body(
        CHAT,
        AuthMode::Payg,
        Bytes::from_static(b"{\"long\":true}"),
        compressed(b"{\"s\":1}"),
        add_key,
    );
    let v: Value = serde_json::from_slice(&sent.body).unwrap();
    assert_eq!(v["s"], Value::from(1));
    assert_eq!(v["prompt_cache_key"], Value::from("chat"));
    assert_eq!(sent.samples.len(), 1);
}
