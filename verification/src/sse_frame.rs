//! The wire form of one server-sent event.

use crate::outside::bytes_api::content;
use crate::outside::json_api::has_line_starting;
use crate::text::{lemma_encode_concat, optional_view};
use bytes::{Bytes, BytesMut};
use vstd::prelude::*;
use vstd::utf8::*;

verus! {

/// A server-sent event: an `event:` line where it has a name, then the payload
/// on a `data:` line, then an empty line.
pub open spec fn sse_frame(event_name: Option<Seq<char>>, payload: Seq<u8>) -> Seq<u8> {
    let event_line = match event_name {
        Some(name) => encode_utf8("event: "@) + encode_utf8(name) + encode_utf8("\n"@),
        None => Seq::empty(),
    };
    event_line + encode_utf8("data: "@) + payload + encode_utf8("\n\n"@)
}

/// Whether a frame can be built in memory.
pub open spec fn frame_fits(event_name: Option<Seq<char>>, payload: Seq<u8>) -> bool {
    sse_frame(event_name, payload).len() <= isize::MAX
}

/// The bytes of the fixed parts of a frame.
proof fn lemma_frame_parts()
    ensures
        encode_utf8("event: "@) == seq![101u8, 118, 101, 110, 116, 58, 32],
        encode_utf8("data: "@) == seq![100u8, 97, 116, 97, 58, 32],
        encode_utf8("\n"@) == seq![10u8],
        encode_utf8("\n\n"@) == seq![10u8, 10],
{
    reveal_strlit("event: ");
    reveal_strlit("data: ");
    reveal_strlit("\n");
    reveal_strlit("\n\n");
    is_ascii_chars_encode_utf8("event: "@);
    is_ascii_chars_encode_utf8("data: "@);
    is_ascii_chars_encode_utf8("\n"@);
    is_ascii_chars_encode_utf8("\n\n"@);
    assert(encode_utf8("event: "@) =~= seq![101u8, 118, 101, 110, 116, 58, 32]);
    assert(encode_utf8("data: "@) =~= seq![100u8, 97, 116, 97, 58, 32]);
    assert(encode_utf8("\n"@) =~= seq![10u8]);
    assert(encode_utf8("\n\n"@) =~= seq![10u8, 10]);
}

/// The frame for `payload` under the name `event_name`.
pub fn named_sse_frame(event_name: Option<&str>, payload: &[u8]) -> (r: Bytes)
    requires
        frame_fits(optional_view(event_name), payload@),
    ensures
        content(r) == sse_frame(optional_view(event_name), payload@),
{
    proof {
        lemma_frame_parts();
    }
    let extra: usize = match event_name {
        Some(name) => name.as_bytes().len() + 8,
        None => 0,
    };
    let mut out = BytesMut::with_capacity(payload.len() + extra + 8);
    if let Some(name) = event_name {
        out.extend_from_slice("event: ".as_bytes());
        out.extend_from_slice(name.as_bytes());
        out.extend_from_slice("\n".as_bytes());
    }
    out.extend_from_slice("data: ".as_bytes());
    out.extend_from_slice(payload);
    out.extend_from_slice("\n\n".as_bytes());
    let frame = out.freeze();
    assert(content(frame) =~= sse_frame(optional_view(event_name), payload@));
    frame
}

/// Whether the frame for `payload` under the name `event_name` can be built in
/// memory.
pub fn fits_in_memory(event_name: Option<&str>, payload: &[u8]) -> (r: bool)
    ensures
        r == frame_fits(optional_view(event_name), payload@),
{
    proof {
        lemma_frame_parts();
    }
    let limit: usize = isize::MAX as usize;
    let payload_len: usize = payload.len();
    if payload_len > limit - 8 {
        return false;
    }
    match event_name {
        Some(name) => {
            let left: usize = limit - 8 - payload_len;
            left >= 8 && name.as_bytes().len() <= left - 8
        },
        None => true,
    }
}

/// A text without line breaks has none in UTF-8 either.
proof fn lemma_no_newline_byte(s: Seq<char>)
    requires
        !s.contains('\n'),
    ensures
        !encode_utf8(s).contains(10u8),
    decreases s.len(),
{
    if s.len() > 0 {
        let c = s[0] as u32;
        char_is_scalar(s[0]);
        char_u32_cast(s[0], c);
        assert(s.contains(s[0]));
        let rest = s.drop_first();
        assert forall|i: int| 0 <= i < rest.len() implies rest[i] != '\n' by {
            assert(s.contains(s[i + 1]));
        }
        lemma_no_newline_byte(rest);
        assert(!encode_scalar(c).contains(10u8)) by {
            let low = (c & 0x3F) as u8;
            let mid = ((c >> 6) & 0x3F) as u8;
            let high = ((c >> 12) & 0x3F) as u8;
            let two = ((c >> 6) & 0x1F) as u8;
            let three = ((c >> 12) & 0x0F) as u8;
            let four = ((c >> 18) & 0x7) as u8;
            assert(c != 10 && c <= 0x7F ==> (c & 0x7F) as u8 != 10) by (bit_vector);
            assert(0x80u8 | low != 10) by (bit_vector);
            assert(0x80u8 | mid != 10) by (bit_vector);
            assert(0x80u8 | high != 10) by (bit_vector);
            assert(0xC0u8 | two != 10) by (bit_vector);
            assert(0xE0u8 | three != 10) by (bit_vector);
            assert(0xF0u8 | four != 10) by (bit_vector);
            assert(forall|i: int| 0 <= i < encode_scalar(c).len() ==> encode_scalar(c)[i] != 10u8);
        }
        assert forall|i: int| 0 <= i < encode_utf8(s).len() implies encode_utf8(s)[i] != 10u8 by {
            let first = encode_scalar(c);
            if i < first.len() {
                assert(first.contains(first[i]));
            } else {
                assert(encode_utf8(rest).contains(encode_utf8(rest)[i - first.len()]));
            }
        }
    }
}

/// Whatever the payload, it stands in its frame byte for byte, right before the
/// empty line that ends the frame.
pub proof fn law_frame_carries_payload(event_name: Option<Seq<char>>, payload: Seq<u8>)
    ensures
        ({
            let frame = sse_frame(event_name, payload);
            let end = frame.len() - 2;
            &&& end >= payload.len()
            &&& frame.subrange(end - payload.len(), end) == payload
            &&& frame.skip(end) == seq![10u8, 10]
        }),
{
    lemma_frame_parts();
    let frame = sse_frame(event_name, payload);
    let end = frame.len() - 2;
    assert(frame.subrange(end - payload.len(), end) =~= payload);
    assert(frame.skip(end) =~= seq![10u8, 10]);
}

/// Where neither the payload nor the name breaks the line, a frame holds an
/// empty line at its end and nowhere else, so frames sent one after the other
/// can be told apart.
pub proof fn law_frame_ends_once(event_name: Option<Seq<char>>, payload: Seq<u8>, i: int)
    requires
        !payload.contains(10u8),
        event_name matches Some(name) ==> !name.contains('\n'),
        0 <= i < sse_frame(event_name, payload).len() - 1,
    ensures
        sse_frame(event_name, payload)[i] == 10u8 && sse_frame(event_name, payload)[i + 1] == 10u8
            <==> i == sse_frame(event_name, payload).len() - 2,
{
    lemma_frame_parts();
    let frame = sse_frame(event_name, payload);
    assert forall|k: int| 0 <= k < payload.len() implies payload[k] != 10u8 by {
        assert(payload.contains(payload[k]));
    }
    match event_name {
        Some(name) => {
            lemma_no_newline_byte(name);
            let e = encode_utf8(name);
            assert forall|k: int| 0 <= k < e.len() implies e[k] != 10u8 by {
                assert(e.contains(e[k]));
            }
            assert(frame.len() == e.len() + payload.len() + 16);
            if i < 7 {
                assert(frame[i] != 10u8);
            } else if i < 7 + e.len() {
                assert(frame[i] == e[i - 7]);
            } else if i == 7 + e.len() {
                assert(frame[i + 1] == 100u8);
            } else if i < 14 + e.len() {
                assert(frame[i] == encode_utf8("data: "@)[i - 8 - e.len()]);
            } else if i < 14 + e.len() + payload.len() {
                assert(frame[i] == payload[i - 14 - e.len()]);
            }
        },
        None => {
            assert(frame.len() == payload.len() + 8);
            if i < 6 {
                assert(frame[i] == encode_utf8("data: "@)[i]);
            } else if i < 6 + payload.len() {
                assert(frame[i] == payload[i - 6]);
            }
        },
    }
}

/// A frame gives back what went into it: two frames whose names hold no line
/// break are equal only where both their names and their payloads are.
pub proof fn law_frame_is_reversible(
    name_a: Option<Seq<char>>,
    payload_a: Seq<u8>,
    name_b: Option<Seq<char>>,
    payload_b: Seq<u8>,
)
    requires
        name_a matches Some(name) ==> !name.contains('\n'),
        name_b matches Some(name) ==> !name.contains('\n'),
        sse_frame(name_a, payload_a) == sse_frame(name_b, payload_b),
    ensures
        name_a == name_b,
        payload_a == payload_b,
{
    lemma_frame_parts();
    let a = sse_frame(name_a, payload_a);
    let b = sse_frame(name_b, payload_b);
    match (name_a, name_b) {
        (Some(x), Some(y)) => {
            let e = encode_utf8(x);
            let f = encode_utf8(y);
            lemma_no_newline_byte(x);
            lemma_no_newline_byte(y);
            if e.len() < f.len() {
                assert(a[7 + e.len() as int] == 10u8);
                assert(b[7 + e.len() as int] == f[e.len() as int]);
                assert(f.contains(f[e.len() as int]));
            }
            if f.len() < e.len() {
                assert(b[7 + f.len() as int] == 10u8);
                assert(a[7 + f.len() as int] == e[f.len() as int]);
                assert(e.contains(e[f.len() as int]));
            }
            assert(e =~= a.subrange(7, 7 + e.len() as int));
            assert(f =~= b.subrange(7, 7 + e.len() as int));
            encode_utf8_decode_utf8(x);
            encode_utf8_decode_utf8(y);
        },
        (Some(_), None) => {
            assert(a[0] == 101u8);
            assert(b[0] == 100u8);
        },
        (None, Some(_)) => {
            assert(a[0] == 100u8);
            assert(b[0] == 101u8);
        },
        (None, None) => {},
    }
    law_frame_carries_payload(name_a, payload_a);
    law_frame_carries_payload(name_b, payload_b);
}

/// Frames with payloads of different lengths differ, where the longer payload
/// belongs to an event without a name or has no line that starts with a `d`.
pub proof fn lemma_longer_payload_differs(
    name_p: Option<Seq<char>>,
    p: Seq<u8>,
    name_q: Option<Seq<char>>,
    q: Seq<u8>,
)
    requires
        p.len() > q.len(),
        name_p is Some ==> !has_line_starting(p, 100),
    ensures
        sse_frame(name_p, p) != sse_frame(name_q, q),
{
    lemma_frame_parts();
    let f = sse_frame(name_p, p);
    let g = sse_frame(name_q, q);
    if f == g {
        let d = p.len() - q.len();
        let a = f.len() - 2 - p.len() - 6;
        let b = g.len() - 2 - q.len() - 6;
        assert(b == a + d);
        // Both frames hold `data: ` before their payload, the second one further on.
        assert(forall|k: int| 0 <= k < 6 ==> f[a + k] == encode_utf8("data: "@)[k]);
        assert(forall|k: int| 0 <= k < p.len() ==> #[trigger] f[a + 6 + k] == p[k]);
        assert(g[b] == encode_utf8("data: "@)[0]);
        match (name_p, name_q) {
            (_, None) => {
                assert(b == 0);
            },
            (None, Some(_)) => {
                assert(f[0] == 100u8);
                assert(g[0] == 101u8);
            },
            (Some(_), Some(_)) => {
                assert(g[b - 1] == 10u8);
                if d <= 6 {
                    assert(f[a + (d - 1)] == encode_utf8("data: "@)[d - 1]);
                } else {
                    assert(f[a + 6 + (d - 7)] == p[d - 7]);
                    assert(f[a + 6 + (d - 6)] == p[d - 6]);
                    assert(p[d - 7] == 10u8 && p[d - 7 + 1] == 100u8);
                }
            },
        }
    }
}

/// An event: its name, where it has one, and its payload.
pub type SseEvent = (Option<Seq<char>>, Seq<u8>);

/// Whether neither the name nor the payload of an event breaks the line.
pub open spec fn is_one_line(event: SseEvent) -> bool {
    &&& event.0 matches Some(name) ==> !name.contains('\n')
    &&& !event.1.contains(10u8)
}

/// The frames of events, one after the other.
pub open spec fn sse_stream(events: Seq<SseEvent>) -> Seq<u8>
    decreases events.len(),
{
    if events.len() == 0 {
        Seq::empty()
    } else {
        sse_frame(events[0].0, events[0].1) + sse_stream(events.drop_first())
    }
}

proof fn lemma_first_frame_is_not_longer(a: SseEvent, rest_a: Seq<u8>, b: SseEvent, rest_b: Seq<u8>)
    requires
        is_one_line(a),
        is_one_line(b),
        sse_frame(a.0, a.1) + rest_a == sse_frame(b.0, b.1) + rest_b,
    ensures
        sse_frame(b.0, b.1).len() <= sse_frame(a.0, a.1).len(),
{
    let fa = sse_frame(a.0, a.1);
    let fb = sse_frame(b.0, b.1);
    law_frame_carries_payload(a.0, a.1);
    if fa.len() < fb.len() {
        let i = fa.len() - 2;
        assert(fa[i] == fa.skip(i)[0] && fa[i + 1] == fa.skip(i)[1]);
        assert((fa + rest_a)[i] == fa[i] && (fa + rest_a)[i + 1] == fa[i + 1]);
        assert((fb + rest_b)[i] == fb[i] && (fb + rest_b)[i + 1] == fb[i + 1]);
        law_frame_ends_once(b.0, b.1, i);
    }
}

/// A stream of frames gives back the events that went into it, in their order:
/// no two lists of one-line events have the same stream.
pub proof fn law_stream_is_reversible(a: Seq<SseEvent>, b: Seq<SseEvent>)
    requires
        forall|i: int| 0 <= i < a.len() ==> is_one_line(#[trigger] a[i]),
        forall|i: int| 0 <= i < b.len() ==> is_one_line(#[trigger] b[i]),
        sse_stream(a) == sse_stream(b),
    ensures
        a == b,
    decreases a.len(),
{
    if a.len() > 0 {
        law_frame_carries_payload(a[0].0, a[0].1);
    }
    if b.len() > 0 {
        law_frame_carries_payload(b[0].0, b[0].1);
    }
    if a.len() > 0 && b.len() > 0 {
        let fa = sse_frame(a[0].0, a[0].1);
        let fb = sse_frame(b[0].0, b[0].1);
        let rest_a = sse_stream(a.drop_first());
        let rest_b = sse_stream(b.drop_first());
        lemma_first_frame_is_not_longer(a[0], rest_a, b[0], rest_b);
        lemma_first_frame_is_not_longer(b[0], rest_b, a[0], rest_a);
        assert(fa =~= sse_stream(a).take(fa.len() as int));
        assert(fb =~= sse_stream(b).take(fa.len() as int));
        law_frame_is_reversible(a[0].0, a[0].1, b[0].0, b[0].1);
        assert(rest_a =~= sse_stream(a).skip(fa.len() as int));
        assert(rest_b =~= sse_stream(b).skip(fa.len() as int));
        law_stream_is_reversible(a.drop_first(), b.drop_first());
        assert(a =~= seq![a[0]] + a.drop_first());
        assert(b =~= seq![b[0]] + b.drop_first());
    } else {
        assert(a =~= b);
    }
}

/// A frame is text line by line: an `event:` line with the name, where there is
/// one, a `data:` line with the payload, and an empty line.
pub proof fn law_frame_is_lines_of_text(name: Seq<char>, payload: Seq<char>)
    ensures
        sse_frame(None, encode_utf8(payload)) == encode_utf8("data: "@ + payload + "\n\n"@),
        sse_frame(Some(name), encode_utf8(payload)) == encode_utf8(
            "event: "@ + name + "\n"@ + "data: "@ + payload + "\n\n"@,
        ),
{
    lemma_encode_concat("data: "@, payload);
    lemma_encode_concat("data: "@ + payload, "\n\n"@);
    assert(sse_frame(None, encode_utf8(payload)) =~= encode_utf8("data: "@ + payload + "\n\n"@));
    lemma_encode_concat("event: "@, name);
    lemma_encode_concat("event: "@ + name, "\n"@);
    lemma_encode_concat("event: "@ + name + "\n"@, "data: "@);
    lemma_encode_concat("event: "@ + name + "\n"@ + "data: "@, payload);
    lemma_encode_concat("event: "@ + name + "\n"@ + "data: "@ + payload, "\n\n"@);
    assert(sse_frame(Some(name), encode_utf8(payload)) =~= encode_utf8(
        "event: "@ + name + "\n"@ + "data: "@ + payload + "\n\n"@,
    ));
}

/// A name only puts its line before the frame that the payload has without one.
pub proof fn law_name_comes_before_the_frame(name: Seq<char>, payload: Seq<u8>)
    ensures
        sse_frame(Some(name), payload) == encode_utf8("event: "@ + name + "\n"@) + sse_frame(
            None,
            payload,
        ),
{
    lemma_encode_concat("event: "@, name);
    lemma_encode_concat("event: "@ + name, "\n"@);
    assert(sse_frame(Some(name), payload) =~= encode_utf8("event: "@ + name + "\n"@) + sse_frame(
        None,
        payload,
    ));
}

/// A frame can be built exactly where its name and its payload leave room for
/// what stands around them.
pub proof fn law_frames_fit_by_their_length(name: Seq<char>, payload: Seq<u8>)
    ensures
        frame_fits(None, payload) <==> payload.len() + 8 <= isize::MAX,
        frame_fits(Some(name), payload) <==> encode_utf8(name).len() + payload.len() + 16
            <= isize::MAX,
{
    lemma_frame_parts();
}

} // verus!
