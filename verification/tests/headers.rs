//! Rules on request and response headers.

use headroom_proxy::headers::{
    content_length, ensure_request_id, has_token, header_room, header_text, is_application_json,
    is_sse_response, is_websocket_upgrade, keep_client_host, stamp_response_headers,
};
use http::{HeaderMap, HeaderValue};

fn with(pairs: &[(&'static str, &str)]) -> HeaderMap {
    let mut h = HeaderMap::new();
    for (name, value) in pairs {
        h.append(*name, value.parse().unwrap());
    }
    h
}

#[test]
fn header_names_are_found_in_any_case() {
    let h = with(&[("content-type", "a"), ("content-type", "b")]);
    assert_eq!(header_text(&h, "Content-Type"), Some("a"));
    assert_eq!(header_text(&h, "content-length"), None);
    let mut h = HeaderMap::new();
    h.insert("x-raw", HeaderValue::from_bytes(b"\xe9").unwrap());
    assert_eq!(header_text(&h, "x-raw"), None);
    h.insert("x-raw", HeaderValue::from_bytes(b"a\tb").unwrap());
    assert_eq!(header_text(&h, "x-raw"), Some("a\tb"));
}

#[test]
fn json_is_recognised_by_its_media_type() {
    assert!(is_application_json(&with(&[(
        "content-type",
        "application/json"
    )])));
    assert!(is_application_json(&with(&[(
        "content-type",
        " Application/JSON ; charset=utf-8"
    )])));
    assert!(!is_application_json(&with(&[(
        "content-type",
        "application/jsonl"
    )])));
    assert!(!is_application_json(&with(&[(
        "content-type",
        "multipart/form-data; application/json"
    )])));
    assert!(!is_application_json(&HeaderMap::new()));
}

#[test]
fn event_streams_are_recognised_by_their_media_type() {
    assert!(is_sse_response(&with(&[(
        "content-type",
        "text/event-stream; charset=utf-8"
    )])));
    assert!(is_sse_response(&with(&[(
        "content-type",
        "TEXT/EVENT-STREAM"
    )])));
    assert!(!is_sse_response(&with(&[("content-type", "text/plain")])));
    assert!(!is_sse_response(&HeaderMap::new()));
}

#[test]
fn websockets_need_both_headers() {
    assert!(is_websocket_upgrade(&with(&[
        ("upgrade", "WebSocket"),
        ("connection", "keep-alive, Upgrade")
    ])));
    assert!(!is_websocket_upgrade(&with(&[("upgrade", "websocket")])));
    assert!(!is_websocket_upgrade(&with(&[("connection", "upgrade")])));
    assert!(!is_websocket_upgrade(&with(&[
        ("upgrade", "h2c"),
        ("connection", "upgrade")
    ])));
    assert!(!is_websocket_upgrade(&with(&[
        ("upgrade", "websocket"),
        ("connection", "upgrades")
    ])));
}

#[test]
fn tokens_are_separated_by_commas() {
    assert!(has_token("a, b ,C", "c"));
    assert!(has_token("a", "A"));
    assert!(has_token("", ""));
    assert!(!has_token("a b", "a"));
    assert!(!has_token("ab", "a"));
}

#[test]
fn content_length_is_a_number_or_nothing() {
    assert_eq!(content_length(&with(&[("content-length", "42")])), Some(42));
    assert_eq!(content_length(&with(&[("content-length", "+7")])), Some(7));
    assert_eq!(
        content_length(&with(&[("content-length", "18446744073709551615")])),
        Some(u64::MAX)
    );
    assert_eq!(
        content_length(&with(&[("content-length", "18446744073709551616")])),
        None
    );
    assert_eq!(content_length(&with(&[("content-length", "-1")])), None);
    assert_eq!(content_length(&with(&[("content-length", " 1")])), None);
    assert_eq!(content_length(&with(&[("content-length", "")])), None);
    assert_eq!(content_length(&HeaderMap::new()), None);
}

#[test]
fn a_request_keeps_the_id_it_came_with() {
    assert_eq!(
        ensure_request_id(&with(&[("x-request-id", "abc-1")])),
        "abc-1"
    );
    assert_eq!(ensure_request_id(&with(&[("x-request-id", "")])), "");
}

#[test]
fn a_request_without_an_id_gets_a_new_one() {
    let a = ensure_request_id(&HeaderMap::new());
    let b = ensure_request_id(&HeaderMap::new());
    assert_ne!(a, b);
    assert_eq!(a.len(), 36);
    assert_eq!(&a[14..15], "4");
    assert!(a
        .chars()
        .all(|c| c == '-' || c.is_ascii_digit() || ('a'..='f').contains(&c)));
    // An identifier that is no text counts as none.
    let mut h = HeaderMap::new();
    h.insert("x-request-id", HeaderValue::from_bytes(b"\xff").unwrap());
    assert_eq!(ensure_request_id(&h).len(), 36);
}

#[test]
fn the_client_host_is_kept_unless_it_is_rewritten() {
    let incoming = with(&[("host", "client.example")]);
    let mut outgoing = with(&[("accept", "*/*"), ("host", "other")]);
    keep_client_host(&mut outgoing, &incoming, true);
    assert_eq!(outgoing["host"], "other");
    keep_client_host(&mut outgoing, &incoming, false);
    assert_eq!(outgoing["host"], "client.example");
    assert_eq!(outgoing["accept"], "*/*");
    keep_client_host(&mut outgoing, &HeaderMap::new(), false);
    assert_eq!(outgoing["host"], "client.example");
    // A host that is no text is kept byte for byte.
    let mut incoming = HeaderMap::new();
    incoming.insert("host", HeaderValue::from_bytes(b"h\xff").unwrap());
    keep_client_host(&mut outgoing, &incoming, false);
    assert_eq!(outgoing["host"].as_bytes(), b"h\xff");
}

#[test]
fn responses_carry_both_identifiers() {
    let mut h = with(&[
        ("request-id", "up-1"),
        ("x-request-id", "up-2"),
        ("x-request-id", "up-3"),
        ("content-type", "text/plain"),
    ]);
    stamp_response_headers(&mut h, "mine", Some("up-1"));
    assert_eq!(h.get_all("x-request-id").iter().count(), 1);
    assert_eq!(h["x-request-id"], "mine");
    assert_eq!(h["headroom-upstream-request-id"], "up-1");
    assert_eq!(h["request-id"], "up-1");
    assert_eq!(h["content-type"], "text/plain");
}

#[test]
fn identifiers_that_cannot_be_sent_are_left_out() {
    let mut h = with(&[("x-request-id", "up")]);
    stamp_response_headers(&mut h, "line\nbreak", None);
    assert_eq!(h["x-request-id"], "up");
    assert!(!h.contains_key("headroom-upstream-request-id"));
    stamp_response_headers(&mut h, "ok", Some("no\u{7f}"));
    assert_eq!(h["x-request-id"], "ok");
    assert!(!h.contains_key("headroom-upstream-request-id"));
    stamp_response_headers(&mut h, "caf\u{e9}\t", None);
    assert_eq!(h["x-request-id"].as_bytes(), "caf\u{e9}\t".as_bytes());
}

#[test]
fn room_is_counted_by_names() {
    let h = with(&[("a", "1"), ("a", "2"), ("b", "3")]);
    assert!(header_room(&h, 6551));
    assert!(!header_room(&h, 6552));
    assert!(!header_room(&h, usize::MAX));
    assert!(header_room(&HeaderMap::new(), 0));
}
