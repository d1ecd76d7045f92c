//! Translation of messages into server-sent events.

use bytes::Bytes;
use headroom_proxy::eventstream::{EventStreamMessage, MessageHeaders, StreamHeaderValue};
use headroom_proxy::eventstream_to_sse::{
    disposition, extract_anthropic_event_type, payload_to_sse_frame, translate_message,
    try_translate_message, Disposition, OutputMode, TranslateError, TranslateOutcome,
};
use headroom_proxy::sse_frame::{fits_in_memory, named_sse_frame};

fn message(headers: &[(&str, &str)], payload: &'static [u8]) -> EventStreamMessage {
    let mut map = MessageHeaders::new();
    for (name, value) in headers {
        map.insert(
            name.to_string(),
            StreamHeaderValue::String(value.to_string()),
        );
    }
    EventStreamMessage {
        headers: map,
        payload: Bytes::from_static(payload),
    }
}

fn chunk(payload: &'static str) -> EventStreamMessage {
    message(
        &[
            (":event-type", "chunk"),
            (":content-type", "application/json"),
            (":message-type", "event"),
        ],
        payload.as_bytes(),
    )
}

fn emitted(outcome: TranslateOutcome) -> String {
    match outcome {
        TranslateOutcome::Emit(b) => String::from_utf8(b.to_vec()).unwrap(),
        other => panic!("expected Emit; got {other:?}"),
    }
}

#[test]
fn translate_chunk_to_sse_frame() {
    let json = r#"{"type":"message_start","message":{"id":"msg_abc"}}"#;
    let msg = chunk(json);
    let outcome = translate_message(&msg, OutputMode::Sse).unwrap();
    match outcome {
        TranslateOutcome::Emit(b) => {
            let s = std::str::from_utf8(&b).unwrap();
            // Both event: and data: lines must be present, in this order.
            assert!(
                s.starts_with("event: message_start\ndata: "),
                "expected 'event: message_start' header; got {s}"
            );
            assert!(s.ends_with("\n\n"));
            assert!(s.contains(json));
        }
        other => panic!("expected Emit; got {other:?}"),
    }
}

#[test]
fn translate_chunk_falls_back_on_malformed_payload() {
    let msg = chunk("not json at all");
    let outcome = translate_message(&msg, OutputMode::Sse).unwrap();
    match outcome {
        TranslateOutcome::Emit(b) => {
            let s = std::str::from_utf8(&b).unwrap();
            assert!(s.starts_with("data: "));
            assert!(s.ends_with("\n\n"));
        }
        other => panic!("expected Emit; got {other:?}"),
    }
}

#[test]
fn translate_exception_message_is_loud() {
    let msg = message(
        &[
            (":message-type", "exception"),
            (":exception-type", "ThrottlingException"),
        ],
        br#"{"message":"slow down"}"#,
    );
    let err = translate_message(&msg, OutputMode::Sse).unwrap_err();
    assert!(matches!(err, TranslateError::UpstreamException { .. }));
}

#[test]
fn translate_unknown_event_type_skips() {
    let msg = message(
        &[
            (":event-type", "future_unknown_kind"),
            (":message-type", "event"),
        ],
        b"{}",
    );
    let outcome = translate_message(&msg, OutputMode::Sse).unwrap();
    match outcome {
        TranslateOutcome::Skip { event_type } => {
            assert_eq!(event_type, "future_unknown_kind");
        }
        other => panic!("expected Skip; got {other:?}"),
    }
}

#[test]
fn translate_converse_event_to_sse_frame() {
    let msg = message(
        &[
            (":event-type", "contentBlockDelta"),
            (":message-type", "event"),
        ],
        br#"{"contentBlockIndex":0,"delta":{"text":"hi"}}"#,
    );
    let outcome = translate_message(&msg, OutputMode::Sse).unwrap();
    match outcome {
        TranslateOutcome::Emit(b) => {
            let s = std::str::from_utf8(&b).unwrap();
            assert!(s.starts_with("data: "));
            assert!(s.ends_with("\n\n"));
            assert!(s.contains("contentBlockIndex"));
        }
        other => panic!("expected Emit; got {other:?}"),
    }
}

#[test]
fn missing_event_type_is_loud() {
    let msg = message(&[(":message-type", "event")], b"{}");
    let err = translate_message(&msg, OutputMode::Sse).unwrap_err();
    assert!(matches!(err, TranslateError::MissingEventType));
}

#[test]
fn frames_hold_exactly_name_and_payload() {
    assert_eq!(
        emitted(translate_message(&chunk(r#"{"type":"ping"}"#), OutputMode::Sse).unwrap()),
        "event: ping\ndata: {\"type\":\"ping\"}\n\n"
    );
    assert_eq!(
        emitted(translate_message(&chunk(r#"{"type":7}"#), OutputMode::Sse).unwrap()),
        "data: {\"type\":7}\n\n"
    );
    assert_eq!(
        emitted(translate_message(&chunk(""), OutputMode::Sse).unwrap()),
        "data: \n\n"
    );
    assert_eq!(
        payload_to_sse_frame(br#"{"a":1,"type":"x"}"#).as_ref(),
        b"event: x\ndata: {\"a\":1,\"type\":\"x\"}\n\n"
    );
}

#[test]
fn a_frame_is_built_from_the_name_it_is_given() {
    assert_eq!(
        named_sse_frame(Some("n\u{e9}"), b"\x00\xff").as_ref(),
        b"event: n\xc3\xa9\ndata: \x00\xff\n\n"
    );
    assert_eq!(named_sse_frame(None, b"p").as_ref(), b"data: p\n\n");
    assert_eq!(named_sse_frame(Some(""), b"").as_ref(), b"event: \ndata: \n\n");
    assert!(fits_in_memory(Some("name"), b"payload"));
    assert!(fits_in_memory(None, b""));
}

#[test]
fn frames_can_be_told_apart() {
    let a = named_sse_frame(Some("a"), b"1");
    assert_eq!(a.windows(2).filter(|w| w == b"\n\n").count(), 1);
    assert_ne!(a, named_sse_frame(Some("b"), b"1"));
    assert_ne!(a, named_sse_frame(Some("a"), b"2"));
    assert_ne!(a, named_sse_frame(None, b"1"));
}

#[test]
fn a_stream_of_frames_comes_apart_again() {
    let frames = [
        named_sse_frame(Some("a"), b"1"),
        named_sse_frame(None, b""),
        named_sse_frame(Some("b"), b"{}"),
    ];
    let stream: Vec<u8> = frames.iter().flat_map(|f| f.to_vec()).collect();
    let text = String::from_utf8(stream).unwrap();
    let parts: Vec<&str> = text.split_inclusive("\n\n").collect();
    assert_eq!(
        parts,
        vec!["event: a\ndata: 1\n\n", "data: \n\n", "event: b\ndata: {}\n\n"]
    );
}

#[test]
fn event_names_are_read_from_the_top_level() {
    assert_eq!(
        extract_anthropic_event_type(br#"{"type":"abc"}"#),
        Some("abc".to_string())
    );
    assert_eq!(
        extract_anthropic_event_type(br#"{"delta":{"type":"inner"}}"#),
        None
    );
    assert_eq!(extract_anthropic_event_type(br#"["type"]"#), None);
    assert_eq!(extract_anthropic_event_type(br#"{"type":null}"#), None);
    assert_eq!(extract_anthropic_event_type(b"{\"type\":\"x\""), None);
    assert_eq!(extract_anthropic_event_type(b""), None);
}

#[test]
fn every_client_event_is_framed() {
    for event_type in [
        "chunk",
        "messageStart",
        "contentBlockStart",
        "contentBlockDelta",
        "contentBlockStop",
        "messageStop",
        "metadata",
    ] {
        let msg = message(&[(":event-type", event_type)], b"{}");
        assert!(matches!(
            disposition(&msg, OutputMode::Sse),
            Ok(Disposition::Frame)
        ));
        assert_eq!(
            emitted(translate_message(&msg, OutputMode::Sse).unwrap()),
            "data: {}\n\n"
        );
    }
    let msg = message(&[(":event-type", "Chunk")], b"{}");
    assert!(matches!(
        disposition(&msg, OutputMode::Sse),
        Ok(Disposition::Skip { .. })
    ));
}

#[test]
fn passthrough_skips_every_event() {
    let msg = chunk(r#"{"type":"message_start"}"#);
    match translate_message(&msg, OutputMode::EventStream).unwrap() {
        TranslateOutcome::Skip { event_type } => assert_eq!(event_type, "chunk"),
        other => panic!("expected Skip; got {other:?}"),
    }
}

#[test]
fn exceptions_come_first_in_either_mode() {
    for mode in [OutputMode::Sse, OutputMode::EventStream] {
        let msg = message(
            &[(":message-type", "exception"), (":event-type", "chunk")],
            b"boom",
        );
        match translate_message(&msg, mode) {
            Err(TranslateError::UpstreamException { payload_preview }) => {
                assert_eq!(payload_preview, "boom")
            }
            other => panic!("expected an exception; got {other:?}"),
        }
        let msg = message(&[(":message-type", "event")], b"{}");
        assert!(matches!(
            translate_message(&msg, mode),
            Err(TranslateError::MissingEventType)
        ));
    }
}

#[test]
fn unknown_message_types_are_loud() {
    for mode in [OutputMode::Sse, OutputMode::EventStream] {
        for unknown in ["bogus", "error", "Event", ""] {
            let msg = message(
                &[(":event-type", "chunk"), (":message-type", unknown)],
                b"{}",
            );
            match translate_message(&msg, mode) {
                Err(TranslateError::UnknownMessageType { message_type }) => {
                    assert_eq!(message_type, unknown)
                }
                other => panic!("expected a refusal; got {other:?}"),
            }
        }
    }
}

#[test]
fn names_with_line_breaks_do_not_mix_up_payloads() {
    let tricky: &[u8] = b"{\"type\":\"a\\ndata: {}\"}";
    let frame = payload_to_sse_frame(tricky);
    assert_eq!(
        frame.as_ref(),
        b"event: a\ndata: {}\ndata: {\"type\":\"a\\ndata: {}\"}\n\n"
    );
    assert_ne!(frame, payload_to_sse_frame(b"{}"));
    // No line of JSON starts with a small d.
    assert_eq!(extract_anthropic_event_type(b"{\"type\":\"x\",\ndata: 1}"), None);
    assert_eq!(extract_anthropic_event_type(b"{\"type\":\"x\ndata\"}"), None);
}

#[test]
fn exception_previews_end_after_160_bytes() {
    let msg = EventStreamMessage {
        headers: message(&[(":message-type", "exception")], b"").headers,
        payload: Bytes::from(vec![b'x'; 200]),
    };
    match translate_message(&msg, OutputMode::Sse) {
        Err(TranslateError::UpstreamException { payload_preview }) => {
            assert_eq!(payload_preview, "x".repeat(160))
        }
        other => panic!("expected an exception; got {other:?}"),
    }
    // A character that is cut in two, and bytes that are no text.
    let mut payload = vec![b'x'; 159];
    payload.extend_from_slice("é".as_bytes());
    let msg = EventStreamMessage {
        headers: message(&[(":message-type", "exception")], b"").headers,
        payload: Bytes::from(payload),
    };
    match translate_message(&msg, OutputMode::Sse) {
        Err(TranslateError::UpstreamException { payload_preview }) => {
            assert_eq!(payload_preview, "x".repeat(159) + "\u{fffd}")
        }
        other => panic!("expected an exception; got {other:?}"),
    }
}

#[test]
fn errors_say_what_happened() {
    assert_eq!(
        TranslateError::UpstreamException {
            payload_preview: "slow down".to_string()
        }
        .message(),
        "Bedrock stream emitted exception: slow down"
    );
    assert_eq!(
        TranslateError::UnknownMessageType {
            message_type: "bogus".to_string()
        }
        .message(),
        "Bedrock message has unknown `:message-type`: bogus"
    );
    assert_eq!(
        TranslateError::MissingEventType.message(),
        "Bedrock message missing required `:event-type` header"
    );
}

#[test]
fn a_binary_header_is_no_event_type() {
    let mut headers = MessageHeaders::new();
    headers.insert(
        ":event-type".to_string(),
        StreamHeaderValue::Bytes(Bytes::from_static(b"chunk")),
    );
    let msg = EventStreamMessage {
        headers,
        payload: Bytes::from_static(b"{}"),
    };
    assert_eq!(msg.event_type(), None);
    assert!(matches!(
        translate_message(&msg, OutputMode::Sse),
        Err(TranslateError::MissingEventType)
    ));
}

#[test]
fn headers_hold_the_last_value_of_a_name() {
    let mut headers = MessageHeaders::new();
    assert_eq!(headers.get("a"), None);
    headers.insert("a".to_string(), StreamHeaderValue::String("1".to_string()));
    headers.insert("b".to_string(), StreamHeaderValue::String("2".to_string()));
    headers.insert("a".to_string(), StreamHeaderValue::String("3".to_string()));
    assert_eq!(
        headers.get("a"),
        Some(&StreamHeaderValue::String("3".to_string()))
    );
    assert_eq!(
        headers.get("b"),
        Some(&StreamHeaderValue::String("2".to_string()))
    );
    assert_eq!(headers.get("A"), None);
}

#[test]
fn ordinary_messages_are_never_too_large() {
    let msg = chunk(r#"{"type":"ping"}"#);
    match try_translate_message(&msg, OutputMode::Sse) {
        Some(Ok(outcome)) => assert_eq!(
            emitted(outcome),
            "event: ping\ndata: {\"type\":\"ping\"}\n\n"
        ),
        other => panic!("expected a translation; got {other:?}"),
    }
    let msg = message(&[(":message-type", "event")], b"{}");
    assert!(matches!(
        try_translate_message(&msg, OutputMode::Sse),
        Some(Err(TranslateError::MissingEventType))
    ));
}
