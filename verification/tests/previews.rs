//! Previews of header values.

use bytes::Bytes;
use headroom_proxy::eventstream::StreamHeaderValue;
use headroom_proxy::eventstream_to_sse::header_value_preview;

#[test]
fn header_value_preview_strings() {
    assert_eq!(
        header_value_preview(&StreamHeaderValue::String("hi".into())),
        "hi"
    );
    assert!(
        header_value_preview(&StreamHeaderValue::Bytes(Bytes::from_static(&[1, 2, 3])))
            .starts_with("[3 bytes")
    );
}

#[test]
fn header_value_preview_truncates_at_char_boundary() {
    // 63 ASCII bytes before a two-byte character: byte 64 is inside it.
    let s = "x".repeat(63) + "éfoo";
    assert!(s.len() > 64);
    let preview = header_value_preview(&StreamHeaderValue::String(s));
    assert!(
        preview.ends_with('…'),
        "expected ellipsis suffix: {preview:?}"
    );
    assert!(
        !preview.contains('é'),
        "must not include the split codepoint"
    );
}

#[test]
fn header_value_preview_exact_boundary_not_truncated() {
    // A string whose UTF-8 length is exactly 64 must not be truncated.
    let s = "x".repeat(64);
    assert_eq!(
        header_value_preview(&StreamHeaderValue::String(s.clone())),
        s
    );
}

#[test]
fn preview_cuts_after_the_last_whole_character() {
    let s = "x".repeat(63) + "éfoo";
    assert_eq!(
        header_value_preview(&StreamHeaderValue::String(s)),
        "x".repeat(63) + "…"
    );
    // A four-byte character that starts at byte 61 is the worst case.
    let s = "x".repeat(61) + "🦀🦀";
    assert_eq!(
        header_value_preview(&StreamHeaderValue::String(s)),
        "x".repeat(61) + "…"
    );
    let s = "é".repeat(40);
    assert_eq!(
        header_value_preview(&StreamHeaderValue::String(s)),
        "é".repeat(32) + "…"
    );
}

#[test]
fn preview_of_bytes_is_their_number() {
    assert_eq!(
        header_value_preview(&StreamHeaderValue::Bytes(Bytes::new())),
        "[0 bytes]"
    );
    assert_eq!(
        header_value_preview(&StreamHeaderValue::Bytes(Bytes::from(vec![7; 1205]))),
        "[1205 bytes]"
    );
}
