//! Translation of EventStream messages into server-sent events.

use crate::eventstream::{EventStreamMessage, StreamHeaderValue};
use crate::headers::{
    field_text, header_text, law_media_type_is_the_value, law_parameters_do_not_matter, media_type,
    media_type_is,
};
use crate::outside::bytes_api::{as_slice, content};
use crate::outside::http_api::header_fields;
use crate::outside::json_api::{
    has_line_starting, json_member, json_read, json_tree, json_value, parse_json, root, JsonNode,
    JsonTree,
};
use crate::outside::std_api::{decode_lossy, lossy_text};
use crate::sse_frame::{
    fits_in_memory, frame_fits, law_frame_carries_payload, law_name_comes_before_the_frame,
    lemma_longer_payload_differs, named_sse_frame, sse_frame,
};
use crate::text::{
    all_digits, byte_len, chars_of, decimal, decimal_text, digits_value, field_bounds, fields,
    has_bare_ends, is_blank, is_space, law_decimal_reads_back, law_one_field, lemma_encode_concat,
    lemma_fields_join, optional_view, same_ignoring_case, text_eq,
};
use bytes::Bytes;
use http::HeaderMap;
use serde_json::Value;
use vstd::prelude::*;
use vstd::slice::slice_subrange;
use vstd::utf8::*;

verus! {

/// How a stream reaches the client. Picked once per request, from its `Accept`
/// header.
#[derive(Debug, Clone, Copy, PartialEq, Eq, Structural)]
pub enum OutputMode {
    /// The upstream's bytes, unchanged.
    EventStream,
    /// One server-sent event for each message. The default.
    Sse,
}

/// Whether an `Accept` value names one of `candidates`: one of its
/// comma-separated entries has that media type, parameters and case aside.
pub open spec fn selects_eventstream(accept: Seq<char>, candidates: Seq<String>) -> bool {
    exists|i: int, j: int|
        0 <= i < fields(accept, ',').len() && 0 <= j < candidates.len() && same_ignoring_case(
            media_type(#[trigger] fields(accept, ',')[i]),
            #[trigger] candidates[j]@,
        )
}

/// The mode that header fields ask for.
pub open spec fn accepted_mode(
    headers: Map<Seq<char>, Seq<Seq<u8>>>,
    candidates: Seq<String>,
) -> OutputMode {
    match field_text(headers, "accept"@) {
        Some(accept) if selects_eventstream(accept, candidates) => OutputMode::EventStream,
        _ => OutputMode::Sse,
    }
}

impl OutputMode {
    /// The `Accept` values that select [`OutputMode::EventStream`] unless others
    /// are configured.
    pub fn default_eventstream_accept_values() -> (r: Vec<String>)
        ensures
            r@.len() == 1,
            r@[0]@ == "application/vnd.amazon.eventstream"@,
    {
        let mut values: Vec<String> = Vec::new();
        values.push(String::from_str("application/vnd.amazon.eventstream"));
        values
    }

    /// The mode that an `Accept` value selects.
    pub fn for_accept_value(accept: &str, eventstream_accept_values: &[String]) -> (r: OutputMode)
        ensures
            r == (if selects_eventstream(accept@, eventstream_accept_values@) {
                OutputMode::EventStream
            } else {
                OutputMode::Sse
            }),
    {
        let chars = chars_of(accept);
        let bounds = field_bounds(chars.as_slice(), ',');
        let mut i: usize = 0;
        while i < bounds.len()
            invariant
                i <= bounds.len(),
                chars@ == accept@,
                bounds@.len() == fields(accept@, ',').len(),
                forall|k: int|
                    0 <= k < bounds@.len() ==> (#[trigger] bounds@[k]).0 <= bounds@[k].1
                        <= chars@.len() && chars@.subrange(
                        bounds@[k].0 as int,
                        bounds@[k].1 as int,
                    ) == fields(accept@, ',')[k],
                forall|k: int, j: int|
                    0 <= k < i && 0 <= j < eventstream_accept_values@.len() ==> !same_ignoring_case(
                        media_type(#[trigger] fields(accept@, ',')[k]),
                        #[trigger] eventstream_accept_values@[j]@,
                    ),
            decreases bounds.len() - i,
        {
            let (from, to) = bounds[i];
            let mut j: usize = 0;
            while j < eventstream_accept_values.len()
                invariant
                    i < fields(accept@, ',').len(),
                    from <= to <= chars@.len(),
                    chars@.subrange(from as int, to as int) == fields(accept@, ',')[i as int],
                    j <= eventstream_accept_values@.len(),
                    forall|k: int|
                        0 <= k < j ==> !same_ignoring_case(
                            media_type(fields(accept@, ',')[i as int]),
                            #[trigger] eventstream_accept_values@[k]@,
                        ),
                decreases eventstream_accept_values@.len() - j,
            {
                if media_type_is(chars.as_slice(), from, to, eventstream_accept_values[j].as_str()) {
                    assert(same_ignoring_case(
                        media_type(fields(accept@, ',')[i as int]),
                        eventstream_accept_values@[j as int]@,
                    ));
                    return OutputMode::EventStream;
                }
                j += 1;
            }
            i += 1;
        }
        OutputMode::Sse
    }

    /// The mode that a request asks for with its `Accept` header, where
    /// `eventstream_accept_values` are the values that select
    /// [`OutputMode::EventStream`].
    pub fn from_accept(headers: &HeaderMap, eventstream_accept_values: &[String]) -> (r: OutputMode)
        ensures
            r == accepted_mode(header_fields(*headers), eventstream_accept_values@),
    {
        match header_text(headers, "accept") {
            Some(accept) => OutputMode::for_accept_value(accept, eventstream_accept_values),
            None => OutputMode::Sse,
        }
    }
}

/// What becomes of one message.
#[derive(Debug, Clone, PartialEq, Eq)]
pub enum TranslateOutcome {
    /// Send these bytes to the client.
    Emit(Bytes),
    /// The message has no translation.
    Skip { event_type: String },
}

/// Why a message could not be translated.
#[derive(Debug)]
pub enum TranslateError {
    /// The service raised an error in the middle of the stream.
    UpstreamException { payload_preview: String },
    /// The message is of a type that the protocol does not have.
    UnknownMessageType { message_type: String },
    /// The message has no `:event-type` header.
    MissingEventType,
}

impl TranslateError {
    /// The error in words.
    pub open spec fn message_text(&self) -> Seq<char> {
        match self {
            TranslateError::UpstreamException { payload_preview } =>
                "Bedrock stream emitted exception: "@ + payload_preview@,
            TranslateError::UnknownMessageType { message_type } =>
                "Bedrock message has unknown `:message-type`: "@ + message_type@,
            TranslateError::MissingEventType =>
                "Bedrock message missing required `:event-type` header"@,
        }
    }

    /// The error in words.
    pub fn message(&self) -> (r: String)
        ensures
            r@ == self.message_text(),
    {
        match self {
            TranslateError::UpstreamException { payload_preview } => {
                let mut text = String::from_str("Bedrock stream emitted exception: ");
                text.append(payload_preview.as_str());
                text
            },
            TranslateError::UnknownMessageType { message_type } => {
                let mut text = String::from_str("Bedrock message has unknown `:message-type`: ");
                text.append(message_type.as_str());
                text
            },
            TranslateError::MissingEventType => String::from_str(
                "Bedrock message missing required `:event-type` header",
            ),
        }
    }
}

/// The payload bytes that an exception's preview is made of, at most.
pub const EXCEPTION_PREVIEW_BYTES: usize = 160;

/// The event types that carry something for the client.
pub open spec fn is_client_event(event_type: Seq<char>) -> bool {
    ||| event_type == "chunk"@
    ||| event_type == "messageStart"@
    ||| event_type == "contentBlockStart"@
    ||| event_type == "contentBlockDelta"@
    ||| event_type == "contentBlockStop"@
    ||| event_type == "messageStop"@
    ||| event_type == "metadata"@
}

fn client_event(event_type: &str) -> (r: bool)
    ensures
        r == is_client_event(event_type@),
{
    text_eq(event_type, "chunk") || text_eq(event_type, "messageStart") || text_eq(
        event_type,
        "contentBlockStart",
    ) || text_eq(event_type, "contentBlockDelta") || text_eq(event_type, "contentBlockStop")
        || text_eq(event_type, "messageStop") || text_eq(event_type, "metadata")
}

/// The event name in a JSON payload: its member `type`, where that is text.
pub open spec fn event_name_in(tree: JsonTree) -> Option<Seq<char>> {
    if tree.contains_key(seq!["type"@]) {
        match tree[seq!["type"@]] {
            JsonNode::Text(name) => Some(name),
            _ => None,
        }
    } else {
        None
    }
}

/// The event name in the JSON value `v`.
pub fn json_event_type(v: &Value) -> (r: Option<&str>)
    ensures
        optional_view(r) == event_name_in(json_tree(*v)),
{
    match json_member(v, "type") {
        Some(member) => {
            assert(seq!["type"@] + root() =~= seq!["type"@]);
            member.as_str()
        },
        None => None,
    }
}

/// The event name in a payload; none where the payload is not JSON.
pub open spec fn anthropic_event_type(payload: Seq<u8>) -> Option<Seq<char>> {
    match json_read(payload) {
        Some(tree) => event_name_in(tree),
        None => None,
    }
}

/// The event name in a payload.
pub fn extract_anthropic_event_type(payload: &[u8]) -> (r: Option<String>)
    ensures
        match r {
            Some(name) => anthropic_event_type(payload@) == Some(name@),
            None => anthropic_event_type(payload@) is None,
        },
        r is Some ==> !has_line_starting(payload@, 100),
{
    match parse_json(payload) {
        Ok(v) => match json_event_type(&v) {
            Some(name) => Some(name.to_owned()),
            None => None,
        },
        Err(_) => None,
    }
}

/// Whether `frame` is the frame for `payload` under the name that it carries. A
/// payload that carries a name is JSON, in which no line starts with a `d`.
pub open spec fn is_frame_of(frame: Seq<u8>, payload: Seq<u8>) -> bool {
    &&& frame == sse_frame(anthropic_event_type(payload), payload)
    &&& anthropic_event_type(payload) is Some ==> !has_line_starting(payload, 100)
}

/// The frame for `payload` under the name that it carries.
pub fn payload_to_sse_frame(payload: &[u8]) -> (r: Bytes)
    requires
        frame_fits(anthropic_event_type(payload@), payload@),
    ensures
        content(r) == sse_frame(anthropic_event_type(payload@), payload@),
        is_frame_of(content(r), payload@),
{
    match extract_anthropic_event_type(payload) {
        Some(name) => named_sse_frame(Some(name.as_str()), payload),
        None => named_sse_frame(None, payload),
    }
}

/// What is to be done with a message, before its payload is read.
#[derive(Debug)]
pub enum Disposition {
    /// Frame the payload.
    Frame,
    /// The message has no translation.
    Skip { event_type: String },
}

/// What becomes of a message, as a value of its own.
pub enum Translation {
    /// These bytes go to the client.
    Emit(Seq<u8>),
    /// The message, of this event type, has no translation.
    Skip(Seq<char>),
    /// The service raised an error, previewed by this text.
    Exception(Seq<char>),
    /// The message is of this type, which the protocol does not have.
    UnknownType(Seq<char>),
    /// The message has no event type.
    NoEventType,
}

/// Whether a message is of a type that the protocol does not have. One without
/// a type is not.
pub open spec fn has_unknown_type(message: EventStreamMessage) -> bool {
    message.message_type_text() matches Some(t) && t != "event"@ && t != "exception"@
}

/// The first bytes of a payload, as many as a preview is made of.
pub open spec fn previewed(payload: Seq<u8>) -> Seq<u8> {
    if payload.len() <= EXCEPTION_PREVIEW_BYTES {
        payload
    } else {
        payload.take(EXCEPTION_PREVIEW_BYTES as int)
    }
}

/// What becomes of a message whose payload carries the event name `event_name`.
pub open spec fn named_translation(
    message: EventStreamMessage,
    mode: OutputMode,
    event_name: Option<Seq<char>>,
) -> Translation {
    if message.message_type_text() == Some("exception"@) {
        Translation::Exception(lossy_text(previewed(content(message.payload))))
    } else if has_unknown_type(message) {
        Translation::UnknownType(message.message_type_text()->Some_0)
    } else {
        match message.event_type_text() {
            None => Translation::NoEventType,
            Some(event_type) => if mode == OutputMode::Sse && is_client_event(event_type) {
                Translation::Emit(sse_frame(event_name, content(message.payload)))
            } else {
                Translation::Skip(event_type)
            },
        }
    }
}

/// What becomes of a message.
pub open spec fn translation(message: EventStreamMessage, mode: OutputMode) -> Translation {
    named_translation(message, mode, anthropic_event_type(content(message.payload)))
}

/// What a result of [`translate_message`] stands for.
pub open spec fn translated(r: Result<TranslateOutcome, TranslateError>) -> Translation {
    match r {
        Ok(TranslateOutcome::Emit(frame)) => Translation::Emit(content(frame)),
        Ok(TranslateOutcome::Skip { event_type }) => Translation::Skip(event_type@),
        Err(TranslateError::UpstreamException { payload_preview }) => Translation::Exception(
            payload_preview@,
        ),
        Err(TranslateError::UnknownMessageType { message_type }) => Translation::UnknownType(
            message_type@,
        ),
        Err(TranslateError::MissingEventType) => Translation::NoEventType,
    }
}

/// Whether `e`, where it reports an exception, previews a payload that is UTF-8
/// with the text itself.
pub open spec fn previews_text(e: TranslateError, payload: Seq<u8>) -> bool {
    e matches TranslateError::UpstreamException { payload_preview } ==> (valid_utf8(
        previewed(payload),
    ) ==> payload_preview@ == decode_utf8(previewed(payload)))
}

/// Whether the message is to be framed, skipped or refused.
pub fn disposition(message: &EventStreamMessage, mode: OutputMode) -> (r: Result<
    Disposition,
    TranslateError,
>)
    ensures
        forall|name: Option<Seq<char>>|
            #![trigger named_translation(*message, mode, name)]
            match r {
                Ok(Disposition::Frame) => named_translation(*message, mode, name)
                    == Translation::Emit(sse_frame(name, content(message.payload))),
                Ok(Disposition::Skip { event_type }) => named_translation(*message, mode, name)
                    == Translation::Skip(event_type@),
                Err(e) => named_translation(*message, mode, name) == translated(Err(e)),
            },
        r matches Err(e) ==> previews_text(e, content(message.payload)),
{
    let message_type = message.message_type();
    let is_exception = match message_type {
        Some(t) => text_eq(t, "exception"),
        None => false,
    };
    if is_exception {
        let payload = as_slice(&message.payload);
        let shown: usize = if payload.len() < EXCEPTION_PREVIEW_BYTES {
            payload.len()
        } else {
            EXCEPTION_PREVIEW_BYTES
        };
        assert(payload@.subrange(0, shown as int) =~= previewed(payload@));
        return Err(
            TranslateError::UpstreamException {
                payload_preview: decode_lossy(slice_subrange(payload, 0, shown)),
            },
        );
    }
    if let Some(t) = message_type {
        if !text_eq(t, "event") {
            return Err(TranslateError::UnknownMessageType { message_type: t.to_owned() });
        }
    }
    match message.event_type() {
        None => Err(TranslateError::MissingEventType),
        Some(event_type) => if mode == OutputMode::Sse && client_event(event_type) {
            Ok(Disposition::Frame)
        } else {
            Ok(Disposition::Skip { event_type: event_type.to_owned() })
        },
    }
}

/// Translates one message under `mode`.
///
/// An exception, a message of an unknown type and one without an event type are
/// refused whatever the mode. In [`OutputMode::Sse`] a message for the client
/// becomes one frame; every other message is skipped.
pub fn translate_message(message: &EventStreamMessage, mode: OutputMode) -> (r: Result<
    TranslateOutcome,
    TranslateError,
>)
    requires
        translation(*message, mode) is Emit ==> frame_fits(
            anthropic_event_type(content(message.payload)),
            content(message.payload),
        ),
    ensures
        translated(r) == translation(*message, mode),
        r matches Err(e) ==> previews_text(e, content(message.payload)),
{
    match disposition(message, mode) {
        Ok(Disposition::Frame) => Ok(
            TranslateOutcome::Emit(payload_to_sse_frame(as_slice(&message.payload))),
        ),
        Ok(Disposition::Skip { event_type }) => Ok(TranslateOutcome::Skip { event_type }),
        Err(e) => Err(e),
    }
}

/// Translates one message under `mode`, unless its frame would be too large to
/// build in memory.
pub fn try_translate_message(message: &EventStreamMessage, mode: OutputMode) -> (r: Option<
    Result<TranslateOutcome, TranslateError>,
>)
    ensures
        r is None <==> translation(*message, mode) is Emit && !frame_fits(
            anthropic_event_type(content(message.payload)),
            content(message.payload),
        ),
        r matches Some(result) ==> translated(result) == translation(*message, mode),
        r matches Some(Err(e)) ==> previews_text(e, content(message.payload)),
{
    let framed = match disposition(message, mode) {
        Ok(Disposition::Frame) => true,
        _ => false,
    };
    if framed {
        let payload = as_slice(&message.payload);
        let name = extract_anthropic_event_type(payload);
        let fits = match &name {
            Some(name) => fits_in_memory(Some(name.as_str()), payload),
            None => fits_in_memory(None, payload),
        };
        if !fits {
            return None;
        }
    }
    Some(translate_message(message, mode))
}

/// The bytes of a text value that its preview shows, at most.
pub const TEXT_PREVIEW_BYTES: usize = 64;

/// Whether `n` is the largest number of characters from the start of `s` that
/// fit in `limit` bytes, where not all of them do.
pub open spec fn is_cut(s: Seq<char>, limit: nat, n: int) -> bool {
    0 <= n < s.len() && byte_len(s.take(n)) <= limit < byte_len(s.take(n + 1))
}

/// Whether `r` is the preview of `v`: a short text in full, the start of a long
/// one before an ellipsis, and of bytes their number.
pub open spec fn is_preview(v: StreamHeaderValue, r: Seq<char>) -> bool {
    match v {
        StreamHeaderValue::String(s) => if byte_len(s@) <= TEXT_PREVIEW_BYTES {
            r == s@
        } else {
            exists|n: int| #[trigger]
                is_cut(s@, TEXT_PREVIEW_BYTES as nat, n) && r == s@.take(n).push('\u{2026}')
        },
        StreamHeaderValue::Bytes(b) => r == "["@ + decimal(content(b).len()) + " bytes]"@,
    }
}

proof fn lemma_prefix_is_boundary(a: Seq<char>, b: Seq<char>)
    ensures
        is_char_boundary(encode_utf8(a + b), encode_utf8(a).len() as int),
    decreases a.len(),
{
    encode_utf8_valid_utf8(a + b);
    if a.len() == 0 {
        is_char_boundary_start_end_of_seq(encode_utf8(a + b));
    } else {
        let bytes = encode_utf8(a + b);
        encode_utf8_first_scalar(a + b);
        lemma_encode_concat(a, b);
        lemma_prefix_is_boundary(a.drop_first(), b);
        assert((a + b).drop_first() =~= a.drop_first() + b);
        assert(pop_first_scalar(bytes) =~= encode_utf8(a.drop_first() + b));
    }
}

/// The first `end` bytes of `s` are its first characters, and no more
/// characters fit in `limit` bytes where no boundary follows up to there.
proof fn lemma_boundary_is_cut(s: Seq<char>, limit: nat, end: int, start: Seq<char>)
    requires
        0 <= end <= limit < byte_len(s),
        is_char_boundary(encode_utf8(s), end),
        forall|k: int| end < k <= limit ==> !is_char_boundary(encode_utf8(s), k),
        encode_utf8(start) == encode_utf8(s).subrange(0, end),
    ensures
        is_cut(s, limit, start.len() as int),
        s.take(start.len() as int) == start,
{
    let bytes = encode_utf8(s);
    encode_utf8_valid_utf8(s);
    encode_utf8_decode_utf8(s);
    encode_utf8_decode_utf8(start);
    decode_utf8_split(bytes, end);
    let n = start.len() as int;
    let tail = decode_utf8(bytes.subrange(end, bytes.len() as int));
    assert(s == start + tail);
    assert(s.take(n) =~= start);
    if tail.len() == 0 {
        assert(s =~= start);
        assert(false);
    }
    let longer = s.take(n + 1);
    let rest = s.skip(n + 1);
    assert(s =~= longer + rest);
    lemma_prefix_is_boundary(longer, rest);
    lemma_encode_concat(start, seq![s[n]]);
    assert(longer =~= start + seq![s[n]]);
    lemma_encode_concat(longer, rest);
    assert(encode_utf8(seq![s[n]]).len() > 0) by {
        encode_utf8_first_scalar(seq![s[n]]);
    }
}

/// One header value, for logs.
pub fn header_value_preview(v: &StreamHeaderValue) -> (r: String)
    ensures
        is_preview(*v, r@),
{
    match v {
        StreamHeaderValue::String(s) => {
            let text = s.as_str();
            if text.as_bytes().len() <= TEXT_PREVIEW_BYTES {
                text.to_owned()
            } else {
                proof {
                    encode_utf8_valid_utf8(text@);
                    is_char_boundary_start_end_of_seq(encode_utf8(text@));
                }
                let mut end: usize = TEXT_PREVIEW_BYTES;
                while !text.is_char_boundary(end)
                    invariant
                        end <= TEXT_PREVIEW_BYTES,
                        is_char_boundary(encode_utf8(text@), 0),
                        forall|k: int|
                            end < k <= TEXT_PREVIEW_BYTES ==> !is_char_boundary(
                                encode_utf8(text@),
                                k,
                            ),
                    decreases end,
                {
                    end -= 1;
                }
                let (start, _) = text.split_at(end);
                proof {
                    lemma_boundary_is_cut(text@, TEXT_PREVIEW_BYTES as nat, end as int, start@);
                    reveal_strlit("\u{2026}");
                }
                let mut preview = start.to_owned();
                preview.append("\u{2026}");
                assert(preview@ =~= text@.take(start@.len() as int).push('\u{2026}'));
                preview
            }
        },
        StreamHeaderValue::Bytes(b) => {
            let mut preview = String::from_str("[");
            preview.append(decimal_text(as_slice(b).len() as u64).as_str());
            preview.append(" bytes]");
            preview
        },
    }
}

/// A message that reports an exception is refused in either mode, whatever its
/// other headers say, and the preview of the error is made of its payload alone.
pub proof fn law_exception_comes_first(message: EventStreamMessage, mode: OutputMode)
    requires
        message.message_type_text() == Some("exception"@),
    ensures
        translation(message, mode) == Translation::Exception(
            lossy_text(previewed(content(message.payload))),
        ),
{
}

/// A message of a type that the protocol does not have is refused in either mode
/// with that type, whatever its other headers say.
pub proof fn law_unknown_types_are_refused(message: EventStreamMessage, mode: OutputMode)
    requires
        has_unknown_type(message),
    ensures
        translation(message, mode) == Translation::UnknownType(
            message.message_type_text()->Some_0,
        ),
{
}

/// A message of a known type that has no event type is refused in either mode:
/// it is never translated or dropped in silence.
pub proof fn law_missing_event_type_is_refused(message: EventStreamMessage, mode: OutputMode)
    requires
        message.message_type_text() != Some("exception"@),
        !has_unknown_type(message),
    ensures
        message.event_type_text() is None <==> translation(message, mode)
            == Translation::NoEventType,
{
}

/// Where the client takes the upstream's bytes as they are, nothing is ever
/// emitted in their place.
pub proof fn law_passthrough_emits_nothing(message: EventStreamMessage)
    ensures
        !(translation(message, OutputMode::EventStream) is Emit),
{
}

/// What is emitted holds the payload byte for byte before its last two bytes.
pub proof fn law_translation_keeps_payload(message: EventStreamMessage, mode: OutputMode)
    ensures
        translation(message, mode) matches Translation::Emit(frame) ==> {
            let payload = content(message.payload);
            &&& frame.len() - 2 >= payload.len()
            &&& frame.subrange(frame.len() - 2 - payload.len(), frame.len() - 2) == payload
            &&& frame.skip(frame.len() - 2) == seq![10u8, 10]
        },
{
    law_frame_carries_payload(
        anthropic_event_type(content(message.payload)),
        content(message.payload),
    );
}

/// A frame determines its payload: no two payloads share a frame, whatever names
/// they carry.
pub proof fn law_frame_determines_payload(frame: Seq<u8>, p: Seq<u8>, q: Seq<u8>)
    requires
        is_frame_of(frame, p),
        is_frame_of(frame, q),
    ensures
        p == q,
{
    if p.len() > q.len() {
        lemma_longer_payload_differs(
            anthropic_event_type(p),
            p,
            anthropic_event_type(q),
            q,
        );
    } else if q.len() > p.len() {
        lemma_longer_payload_differs(
            anthropic_event_type(q),
            q,
            anthropic_event_type(p),
            p,
        );
    }
    law_frame_carries_payload(anthropic_event_type(p), p);
    law_frame_carries_payload(anthropic_event_type(q), q);
}

/// A request without an `Accept` header that is text gets server-sent events.
pub proof fn law_no_accept_means_sse(
    headers: Map<Seq<char>, Seq<Seq<u8>>>,
    candidates: Seq<String>,
)
    requires
        field_text(headers, "accept"@) is None,
    ensures
        accepted_mode(headers, candidates) == OutputMode::Sse,
{
}

/// Entries that are listed together select what one of them would have selected
/// alone.
pub proof fn law_one_entry_is_enough(a: Seq<char>, b: Seq<char>, candidates: Seq<String>)
    ensures
        selects_eventstream(a.push(',') + b, candidates) <==> selects_eventstream(a, candidates)
            || selects_eventstream(b, candidates),
{
    let joined = a.push(',') + b;
    let n = fields(a, ',').len();
    lemma_fields_join(a, b, ',');
    assert(forall|i: int|
        0 <= i < n ==> #[trigger] fields(a, ',')[i] == fields(joined, ',')[i]);
    assert(forall|i: int|
        0 <= i < fields(b, ',').len() ==> #[trigger] fields(b, ',')[i] == fields(joined, ',')[n
            + i]);
    if selects_eventstream(joined, candidates) {
        let (i, j) = choose|i: int, j: int|
            0 <= i < fields(joined, ',').len() && 0 <= j < candidates.len() && same_ignoring_case(
                media_type(#[trigger] fields(joined, ',')[i]),
                #[trigger] candidates[j]@,
            );
        if i < n {
            assert(fields(a, ',')[i] == fields(joined, ',')[i]);
        } else {
            assert(fields(b, ',')[i - n] == fields(joined, ',')[i]);
        }
    }
}

proof fn lemma_prefix_bytes(s: Seq<char>, a: int, b: int)
    requires
        0 <= a <= b <= s.len(),
    ensures
        byte_len(s.take(a)) <= byte_len(s.take(b)),
{
    assert(s.take(b) =~= s.take(a) + s.subrange(a, b));
    lemma_encode_concat(s.take(a), s.subrange(a, b));
}

/// A header value has exactly one preview.
pub proof fn law_preview_is_unique(v: StreamHeaderValue, a: Seq<char>, b: Seq<char>)
    requires
        is_preview(v, a),
        is_preview(v, b),
    ensures
        a == b,
{
    if let StreamHeaderValue::String(s) = v {
        if byte_len(s@) > TEXT_PREVIEW_BYTES {
            let limit = TEXT_PREVIEW_BYTES as nat;
            let m = choose|n: int| #[trigger]
                is_cut(s@, limit, n) && a == s@.take(n).push('\u{2026}');
            let n = choose|n: int| #[trigger]
                is_cut(s@, limit, n) && b == s@.take(n).push('\u{2026}');
            if m < n {
                lemma_prefix_bytes(s@, m + 1, n);
            }
            if n < m {
                lemma_prefix_bytes(s@, n + 1, m);
            }
        }
    }
}

/// The preview of a text shows at most 64 bytes of it, always a whole number of
/// characters from its start; where it cuts the text short it still shows at
/// least 61 of them, and adds an ellipsis.
pub proof fn law_text_preview_is_short(s: String, r: Seq<char>)
    requires
        is_preview(StreamHeaderValue::String(s), r),
    ensures
        r == s@ && byte_len(r) <= 64 || {
            let shown = r.drop_last();
            &&& r.len() > 0
            &&& r.last() == '\u{2026}'
            &&& shown.is_prefix_of(s@)
            &&& shown.len() < s@.len()
            &&& 61 <= byte_len(shown) <= 64
        },
{
    if byte_len(s@) > TEXT_PREVIEW_BYTES {
        let n = choose|n: int| #[trigger]
            is_cut(s@, TEXT_PREVIEW_BYTES as nat, n) && r == s@.take(n).push('\u{2026}');
        assert(r.drop_last() =~= s@.take(n));
        assert(s@.take(n + 1) =~= s@.take(n) + seq![s@[n]]);
        lemma_encode_concat(s@.take(n), seq![s@[n]]);
        assert(encode_utf8(seq![s@[n]]).len() <= 4) by {
            assert(seq![s@[n]].drop_first() =~= Seq::<char>::empty());
            assert(encode_utf8(Seq::<char>::empty()).len() == 0);
        }
    }
}

/// The mode depends on the `Accept` field alone: two requests with one text there
/// have one mode, whatever other fields they carry, and it is
/// [`OutputMode::EventStream`] wherever that text selects it.
pub proof fn law_only_accept_selects_the_mode(
    a: Map<Seq<char>, Seq<Seq<u8>>>,
    b: Map<Seq<char>, Seq<Seq<u8>>>,
    candidates: Seq<String>,
)
    requires
        field_text(a, "accept"@) == field_text(b, "accept"@),
    ensures
        accepted_mode(a, candidates) == accepted_mode(b, candidates),
        field_text(a, "accept"@) matches Some(accept) ==> (accepted_mode(a, candidates)
            == OutputMode::EventStream <==> selects_eventstream(accept, candidates)),
{
}

/// One entry selects exactly where one of the configured values is its media
/// type, whatever the case, the white space around it and the parameters after
/// it.
pub proof fn law_an_entry_selects_by_its_media_type(
    a: Seq<char>,
    value: Seq<char>,
    b: Seq<char>,
    parameters: Seq<char>,
    candidates: Seq<String>,
)
    requires
        is_blank(a),
        is_blank(b),
        has_bare_ends(value),
        !value.contains(';'),
        !value.contains(','),
        !parameters.contains(','),
    ensures
        selects_eventstream(a + value + b, candidates) <==> exists|j: int|
            0 <= j < candidates.len() && same_ignoring_case(value, #[trigger] candidates[j]@),
        selects_eventstream((a + value + b).push(';') + parameters, candidates)
            <==> selects_eventstream(a + value + b, candidates),
{
    let plain = a + value + b;
    let full = plain.push(';') + parameters;
    assert forall|i: int| 0 <= i < full.len() implies full[i] != ',' by {
        if i < a.len() {
            assert(is_space(a[i]));
        } else if i < a.len() + value.len() {
            assert(value.contains(value[i - a.len()]));
        } else if i < plain.len() {
            assert(is_space(b[i - a.len() - value.len()]));
        } else if i > plain.len() {
            assert(parameters.contains(parameters[i - plain.len() - 1]));
        }
    }
    assert forall|i: int| 0 <= i < plain.len() implies plain[i] != ',' by {
        assert(full[i] == plain[i]);
    }
    law_one_field(plain, ',');
    law_one_field(full, ',');
    law_media_type_is_the_value(a, value, b);
    law_parameters_do_not_matter(plain, parameters);
    assert(fields(plain, ',')[0] == plain);
    assert(fields(full, ',')[0] == full);
    if exists|j: int| 0 <= j < candidates.len() && same_ignoring_case(
        value,
        #[trigger] candidates[j]@,
    ) {
        let j = choose|j: int|
            0 <= j < candidates.len() && same_ignoring_case(value, #[trigger] candidates[j]@);
        assert(same_ignoring_case(media_type(fields(plain, ',')[0]), candidates[j]@));
        assert(same_ignoring_case(media_type(fields(full, ',')[0]), candidates[j]@));
    }
}

/// Configured values select together what each of them selects alone.
pub proof fn law_each_configured_value_counts(
    accept: Seq<char>,
    c: Seq<String>,
    d: Seq<String>,
)
    ensures
        selects_eventstream(accept, c + d) <==> selects_eventstream(accept, c)
            || selects_eventstream(accept, d),
{
    let all = c + d;
    assert(forall|j: int| 0 <= j < c.len() ==> #[trigger] c[j] == all[j]);
    assert(forall|j: int| 0 <= j < d.len() ==> #[trigger] d[j] == all[c.len() + j]);
    if selects_eventstream(accept, all) {
        let (i, j) = choose|i: int, j: int|
            0 <= i < fields(accept, ',').len() && 0 <= j < all.len() && same_ignoring_case(
                media_type(#[trigger] fields(accept, ',')[i]),
                #[trigger] all[j]@,
            );
        if j < c.len() {
            assert(c[j] == all[j]);
        } else {
            assert(d[j - c.len()] == all[j]);
        }
    }
}

/// The event name of a payload is the text at its top-level member `type`, and
/// depends on nothing else: values with one text there name one event, whatever
/// stands anywhere else in them, members of that name further down included.
pub proof fn law_event_name_is_the_top_level_type(a: JsonTree, b: JsonTree, name: Seq<char>)
    requires
        a.contains_key(seq!["type"@]),
        b.contains_key(seq!["type"@]),
        a[seq!["type"@]] == JsonNode::Text(name),
        b[seq!["type"@]] == JsonNode::Text(name),
    ensures
        event_name_in(a) == Some(name),
        event_name_in(b) == Some(name),
{
}

/// A payload without a text at its top-level member `type` names no event.
pub proof fn law_other_payloads_have_no_name(tree: JsonTree)
    requires
        !tree.contains_key(seq!["type"@]) || !(tree[seq!["type"@]] is Text),
    ensures
        event_name_in(tree) is None,
{
}

/// The event name of a payload is that of the JSON value it holds; a payload
/// that is not JSON has none.
pub proof fn law_names_come_from_json(payload: Seq<u8>, value: Value, name: Seq<char>)
    ensures
        json_value(payload) is None ==> anthropic_event_type(payload) is None,
        json_value(payload) == Some(value) && json_tree(value).contains_key(seq!["type"@])
            && json_tree(value)[seq!["type"@]] == JsonNode::Text(name) ==> anthropic_event_type(
            payload,
        ) == Some(name),
        json_value(payload) == Some(value) && anthropic_event_type(payload) == Some(name)
            ==> json_tree(value)[seq!["type"@]] == JsonNode::Text(name),
{
}

/// The events for the client are those of these types and no others.
pub proof fn law_client_events(event_type: Seq<char>)
    ensures
        is_client_event(event_type) <==> set![
            "chunk"@,
            "messageStart"@,
            "contentBlockStart"@,
            "contentBlockDelta"@,
            "contentBlockStop"@,
            "messageStop"@,
            "metadata"@,
        ].contains(event_type),
{
}

/// Where the client takes server-sent events, a message with an event for it
/// becomes the frame of its payload under the name that the payload carries, and
/// any other event is skipped under its own type.
pub proof fn law_events_are_framed_or_skipped(message: EventStreamMessage, event_type: Seq<char>)
    requires
        message.message_type_text() is None || message.message_type_text() == Some("event"@),
        message.event_type_text() == Some(event_type),
    ensures
        is_client_event(event_type) ==> translation(message, OutputMode::Sse) == Translation::Emit(
            sse_frame(anthropic_event_type(content(message.payload)), content(message.payload)),
        ),
        !is_client_event(event_type) ==> translation(message, OutputMode::Sse)
            == Translation::Skip(event_type),
        translation(message, OutputMode::EventStream) == Translation::Skip(event_type),
{
    reveal_strlit("event");
    reveal_strlit("exception");
    assert("event"@.len() != "exception"@.len());
}

/// What becomes of a message depends on its type, its event type and its payload
/// alone.
pub proof fn law_other_headers_do_not_matter(
    a: EventStreamMessage,
    b: EventStreamMessage,
    mode: OutputMode,
)
    requires
        a.message_type_text() == b.message_type_text(),
        a.event_type_text() == b.event_type_text(),
        content(a.payload) == content(b.payload),
    ensures
        translation(a, mode) == translation(b, mode),
{
}

/// A frame for the client names the event that the payload's top-level `type`
/// names, and holds the payload as its data.
pub proof fn law_emitted_frames_are_named_by_their_payload(
    message: EventStreamMessage,
    value: Value,
    name: Seq<char>,
    frame: Seq<u8>,
)
    requires
        translation(message, OutputMode::Sse) == Translation::Emit(frame),
        json_value(content(message.payload)) == Some(value),
        json_tree(value).contains_key(seq!["type"@]),
        json_tree(value)[seq!["type"@]] == JsonNode::Text(name),
    ensures
        frame == encode_utf8("event: "@ + name + "\n"@) + sse_frame(
            None,
            content(message.payload),
        ),
{
    law_name_comes_before_the_frame(name, content(message.payload));
}

/// Results stand for what they hold: the bytes to send, the event type that was
/// skipped, or the reason of the refusal.
pub proof fn law_results_stand_for_what_they_hold(frame: Bytes, text: String)
    ensures
        translated(Ok(TranslateOutcome::Emit(frame))) == Translation::Emit(content(frame)),
        translated(Ok(TranslateOutcome::Skip { event_type: text })) == Translation::Skip(text@),
        translated(Err(TranslateError::UpstreamException { payload_preview: text }))
            == Translation::Exception(text@),
        translated(Err(TranslateError::UnknownMessageType { message_type: text }))
            == Translation::UnknownType(text@),
        translated(Err(TranslateError::MissingEventType)) == Translation::NoEventType,
{
}

/// An exception is previewed by the start of its payload: all of it up to 160
/// bytes, and the first 160 of a longer one.
pub proof fn law_exceptions_are_previewed_from_the_start(payload: Seq<u8>)
    ensures
        previewed(payload).is_prefix_of(payload),
        payload.len() <= 160 ==> previewed(payload).len() == payload.len(),
        payload.len() > 160 ==> previewed(payload).len() == 160,
{
}

/// An error says what happened, and ends with what it was given.
pub proof fn law_errors_end_with_their_cause(text: String)
    ensures
        ({
            let e = TranslateError::UpstreamException { payload_preview: text };
            &&& e.message_text().len() == "Bedrock stream emitted exception: "@.len() + text@.len()
            &&& "Bedrock stream emitted exception: "@.is_prefix_of(e.message_text())
            &&& e.message_text().skip("Bedrock stream emitted exception: "@.len() as int) == text@
        }),
        ({
            let e = TranslateError::UnknownMessageType { message_type: text };
            let start = "Bedrock message has unknown `:message-type`: "@;
            &&& e.message_text().len() == start.len() + text@.len()
            &&& start.is_prefix_of(e.message_text())
            &&& e.message_text().skip(start.len() as int) == text@
        }),
        TranslateError::MissingEventType.message_text()
            == "Bedrock message missing required `:event-type` header"@,
{
    let a = "Bedrock stream emitted exception: "@;
    let b = "Bedrock message has unknown `:message-type`: "@;
    assert((a + text@).skip(a.len() as int) =~= text@);
    assert((b + text@).skip(b.len() as int) =~= text@);
}

/// A text of up to 64 bytes is previewed in full; of a longer one as many whole
/// characters are shown as fit, and one more would not fit.
pub proof fn law_text_preview_shows_what_fits(s: String, r: Seq<char>)
    requires
        is_preview(StreamHeaderValue::String(s), r),
    ensures
        byte_len(s@) <= 64 ==> r == s@,
        byte_len(s@) > 64 ==> {
            let shown = r.drop_last();
            &&& r.len() > 0
            &&& r.last() == '\u{2026}'
            &&& shown.len() < s@.len()
            &&& shown == s@.take(shown.len() as int)
            &&& byte_len(shown) <= 64
            &&& byte_len(s@.take(shown.len() as int + 1)) > 64
        },
{
    if byte_len(s@) > 64 {
        let n = choose|n: int| #[trigger]
            is_cut(s@, TEXT_PREVIEW_BYTES as nat, n) && r == s@.take(n).push('\u{2026}');
        assert(r.drop_last() =~= s@.take(n));
    }
}

/// Bytes are previewed by their number, in brackets.
pub proof fn law_bytes_preview_is_their_number(b: Bytes, r: Seq<char>)
    requires
        is_preview(StreamHeaderValue::Bytes(b), r),
    ensures
        ({
            let digits = r.subrange(1, r.len() - " bytes]"@.len());
            &&& r.len() > 8
            &&& r[0] == '['
            &&& r.skip(r.len() - " bytes]"@.len()) == " bytes]"@
            &&& all_digits(digits)
            &&& digits_value(digits) == content(b).len()
        }),
{
    reveal_strlit("[");
    reveal_strlit(" bytes]");
    law_decimal_reads_back(content(b).len());
    let digits = decimal(content(b).len());
    assert(r.subrange(1, r.len() - " bytes]"@.len()) =~= digits);
    assert(r.skip(r.len() - " bytes]"@.len()) =~= " bytes]"@);
}

/// A message is refused for its type exactly where it states a type other than
/// the two that the protocol has, and the refusal names that type.
pub proof fn law_other_types_are_refused(
    message: EventStreamMessage,
    mode: OutputMode,
    message_type: Seq<char>,
)
    ensures
        translation(message, mode) == Translation::UnknownType(message_type)
            <==> message.message_type_text() == Some(message_type) && message_type != "event"@
            && message_type != "exception"@,
        message.message_type_text() is None ==> !has_unknown_type(message),
        has_unknown_type(message) <==> translation(message, mode) is UnknownType,
{
}

} // verus!
