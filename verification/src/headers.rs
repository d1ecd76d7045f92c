//! Rules that read the headers of requests and responses.

use crate::outside::http_api::{
    ascii_text, has_room, header_count, header_fields, header_get, header_insert, is_field_byte,
    is_plain_name, is_visible_ascii,
};
use crate::outside::uuid_api::{is_random_uuid_text, new_uuid_text};
use crate::text::{
    before, chars_of, decimal, field_bounds, fields, find_char, folded, has_bare_ends, is_blank,
    is_space, law_before_ends_at_the_separator, law_lower_is_one_for_all_cases,
    law_numbers_are_read, law_one_field, law_trim_takes_the_outer_space, lemma_before_append,
    lemma_fields_join, lower, optional_view, parse_u64, parsed_u64, same_ignoring_case, spells,
    trim, trim_bounds,
};
use http::{HeaderMap, HeaderValue};
use vstd::prelude::*;
use vstd::utf8::*;

verus! {

/// The first value of the field `name` as text, where the field is there and
/// that value is text.
pub open spec fn field_text(fields: Map<Seq<char>, Seq<Seq<u8>>>, name: Seq<char>) -> Option<
    Seq<char>,
> {
    let key = lower(name);
    if fields.contains_key(key) && (forall|i: int|
        0 <= i < fields[key][0].len() ==> is_visible_ascii(#[trigger] fields[key][0][i])) {
        Some(ascii_text(fields[key][0]))
    } else {
        None
    }
}

/// The first value of the field `name` as text.
pub fn header_text<'a>(headers: &'a HeaderMap, name: &str) -> (r: Option<&'a str>)
    ensures
        match r {
            Some(s) => field_text(header_fields(*headers), name@) == Some(s@),
            None => field_text(header_fields(*headers), name@) is None,
        },
{
    match header_get(headers, name) {
        Some(value) => match value.to_str() {
            Ok(s) => Some(s),
            Err(_) => None,
        },
        None => None,
    }
}

/// The media type of a header value: what stands before the first semicolon,
/// without the white space around it.
pub open spec fn media_type(value: Seq<char>) -> Seq<char> {
    trim(before(value, ';'))
}

/// Whether the media type of `chars[from..to]` is `expected`, whatever the case.
pub fn media_type_is(chars: &[char], from: usize, to: usize, expected: &str) -> (r: bool)
    requires
        from <= to <= chars@.len(),
    ensures
        r == same_ignoring_case(media_type(chars@.subrange(from as int, to as int)), expected@),
{
    let end = find_char(chars, from, to, ';');
    let (a, b) = trim_bounds(chars, from, end);
    spells(chars, a, b, expected)
}

/// Whatever parameters follow a media type, it stays the same.
pub proof fn law_parameters_do_not_matter(value: Seq<char>, parameters: Seq<char>)
    ensures
        media_type(value.push(';') + parameters) == media_type(value),
{
    let rest = seq![';'] + parameters;
    lemma_before_append(value, rest, ';');
    assert(value.push(';') + parameters =~= value + rest);
    assert(value + before(rest, ';') =~= value);
}

/// Texts that differ only in the case of their letters are taken for the same
/// media type, token or name.
pub proof fn law_case_does_not_matter(a: Seq<char>, b: Seq<char>, expected: Seq<char>)
    requires
        same_ignoring_case(a, b),
    ensures
        same_ignoring_case(a, expected) <==> same_ignoring_case(b, expected),
{
    if same_ignoring_case(a, expected) {
        assert forall|i: int| 0 <= i < b.len() implies folded(#[trigger] b[i]) == folded(
            expected[i],
        ) by {
            assert(folded(a[i]) == folded(b[i]));
        }
    }
    if same_ignoring_case(b, expected) {
        assert forall|i: int| 0 <= i < a.len() implies folded(#[trigger] a[i]) == folded(
            expected[i],
        ) by {
            assert(folded(a[i]) == folded(b[i]));
        }
    }
}

/// Whether the `Content-Type` among `fields` is `expected`, parameters aside.
pub open spec fn has_content_type(
    fields: Map<Seq<char>, Seq<Seq<u8>>>,
    expected: Seq<char>,
) -> bool {
    match field_text(fields, "content-type"@) {
        Some(value) => same_ignoring_case(media_type(value), expected),
        None => false,
    }
}

fn content_type_is(headers: &HeaderMap, expected: &str) -> (r: bool)
    ensures
        r == has_content_type(header_fields(*headers), expected@),
{
    match header_text(headers, "content-type") {
        Some(value) => {
            let chars = chars_of(value);
            assert(chars@.subrange(0, chars@.len() as int) =~= value@);
            media_type_is(chars.as_slice(), 0, chars.len(), expected)
        },
        None => false,
    }
}

/// Whether a request body is JSON, by its `Content-Type`.
pub fn is_application_json(headers: &HeaderMap) -> (r: bool)
    ensures
        r == has_content_type(header_fields(*headers), "application/json"@),
{
    content_type_is(headers, "application/json")
}

/// Whether a response is a stream of server-sent events, by its `Content-Type`.
pub fn is_sse_response(headers: &HeaderMap) -> (r: bool)
    ensures
        r == has_content_type(header_fields(*headers), "text/event-stream"@),
{
    content_type_is(headers, "text/event-stream")
}

/// Whether one of the comma-separated entries of `value` is `token`, whatever
/// the case.
pub open spec fn lists_token(value: Seq<char>, token: Seq<char>) -> bool {
    exists|i: int|
        0 <= i < fields(value, ',').len() && same_ignoring_case(
            trim(#[trigger] fields(value, ',')[i]),
            token,
        )
}

/// Whether one of the comma-separated entries of `value` is `token`.
pub fn has_token(value: &str, token: &str) -> (r: bool)
    ensures
        r == lists_token(value@, token@),
{
    let chars = chars_of(value);
    let bounds = field_bounds(chars.as_slice(), ',');
    let mut i: usize = 0;
    while i < bounds.len()
        invariant
            i <= bounds.len(),
            chars@ == value@,
            bounds@.len() == fields(value@, ',').len(),
            forall|k: int|
                0 <= k < bounds@.len() ==> (#[trigger] bounds@[k]).0 <= bounds@[k].1 <= chars@.len()
                    && chars@.subrange(bounds@[k].0 as int, bounds@[k].1 as int) == fields(
                    value@,
                    ',',
                )[k],
            forall|k: int|
                0 <= k < i ==> !same_ignoring_case(trim(#[trigger] fields(value@, ',')[k]), token@),
        decreases bounds.len() - i,
    {
        let (from, to) = bounds[i];
        let (a, b) = trim_bounds(chars.as_slice(), from, to);
        if spells(chars.as_slice(), a, b, token) {
            assert(same_ignoring_case(trim(fields(value@, ',')[i as int]), token@));
            return true;
        }
        i += 1;
    }
    false
}

/// Whether header fields ask for a WebSocket: `Upgrade` is `websocket` and
/// `Connection` lists `upgrade`.
pub open spec fn asks_for_websocket(fields: Map<Seq<char>, Seq<Seq<u8>>>) -> bool {
    &&& field_text(fields, "upgrade"@) matches Some(value) && same_ignoring_case(
        value,
        "websocket"@,
    )
    &&& field_text(fields, "connection"@) matches Some(value) && lists_token(value, "upgrade"@)
}

/// Whether a request asks to be upgraded to a WebSocket.
pub fn is_websocket_upgrade(headers: &HeaderMap) -> (r: bool)
    ensures
        r == asks_for_websocket(header_fields(*headers)),
{
    let upgrade = match header_text(headers, "upgrade") {
        Some(value) => {
            let chars = chars_of(value);
            assert(chars@.subrange(0, chars@.len() as int) =~= value@);
            spells(chars.as_slice(), 0, chars.len(), "websocket")
        },
        None => false,
    };
    let connection = match header_text(headers, "connection") {
        Some(value) => has_token(value, "upgrade"),
        None => false,
    };
    upgrade && connection
}

/// The length that `Content-Length` announces, where it is a number.
pub open spec fn announced_length(fields: Map<Seq<char>, Seq<Seq<u8>>>) -> Option<u64> {
    match field_text(fields, "content-length"@) {
        Some(value) => parsed_u64(value),
        None => None,
    }
}

/// The length that `Content-Length` announces.
pub fn content_length(headers: &HeaderMap) -> (r: Option<u64>)
    ensures
        r == announced_length(header_fields(*headers)),
{
    match header_text(headers, "content-length") {
        Some(value) => parse_u64(value),
        None => None,
    }
}

/// The identifier of a request: the one it came with, or else a new random
/// UUID.
pub fn ensure_request_id(headers: &HeaderMap) -> (r: String)
    ensures
        match field_text(header_fields(*headers), "x-request-id"@) {
            Some(id) => r@ == id,
            None => is_random_uuid_text(r@),
        },
{
    match header_text(headers, "x-request-id") {
        Some(id) => id.to_owned(),
        None => new_uuid_text(),
    }
}

/// Whether `headers` can take `extra` more names.
pub fn header_room(headers: &HeaderMap, extra: usize) -> (r: bool)
    ensures
        r == has_room(header_fields(*headers), extra as nat),
{
    let count = header_count(headers);
    extra <= 6553 && count <= 6553 - extra
}

proof fn lemma_plain_name_is_lower(name: Seq<char>)
    requires
        is_plain_name(name),
    ensures
        lower(name) == name,
{
    assert forall|i: int| 0 <= i < name.len() implies lower(name)[i] == name[i] by {
        char_u32_cast(name[i], name[i] as u32);
    }
    assert(lower(name) =~= name);
}

/// The fields that go upstream, where `outgoing` were prepared from those that
/// came in. Unless the upstream is to see its own name, it sees the `Host` that
/// the client sent.
pub open spec fn host_kept(
    outgoing: Map<Seq<char>, Seq<Seq<u8>>>,
    incoming: Map<Seq<char>, Seq<Seq<u8>>>,
    rewrite_host: bool,
) -> Map<Seq<char>, Seq<Seq<u8>>> {
    if !rewrite_host && incoming.contains_key("host"@) {
        outgoing.insert("host"@, seq![incoming["host"@][0]])
    } else {
        outgoing
    }
}

/// Puts the `Host` of `incoming` into `outgoing`, unless it is to be rewritten.
pub fn keep_client_host(outgoing: &mut HeaderMap, incoming: &HeaderMap, rewrite_host: bool)
    requires
        has_room(header_fields(*old(outgoing)), 1),
    ensures
        header_fields(*final(outgoing)) == host_kept(
            header_fields(*old(outgoing)),
            header_fields(*incoming),
            rewrite_host,
        ),
{
    proof {
        reveal_strlit("host");
        lemma_plain_name_is_lower("host"@);
    }
    if !rewrite_host {
        if let Some(host) = header_get(incoming, "host") {
            header_insert(outgoing, "host", host.clone());
        }
    }
}

/// Whether an identifier can be sent as a header value.
pub open spec fn is_sendable(id: Seq<char>) -> bool {
    forall|i: int| 0 <= i < encode_utf8(id).len() ==> is_field_byte(#[trigger] encode_utf8(id)[i])
}

/// `fields` with the identifier `id` under `name`, where it can be sent.
pub open spec fn with_id(
    fields: Map<Seq<char>, Seq<Seq<u8>>>,
    name: Seq<char>,
    id: Option<Seq<char>>,
) -> Map<Seq<char>, Seq<Seq<u8>>> {
    match id {
        Some(id) if is_sendable(id) => fields.insert(name, seq![encode_utf8(id)]),
        _ => fields,
    }
}

/// The fields of the response to the client: those of the upstream, then the
/// proxy's own identifier, then the upstream's under a name of its own.
pub open spec fn stamped(
    fields: Map<Seq<char>, Seq<Seq<u8>>>,
    request_id: Seq<char>,
    upstream_request_id: Option<Seq<char>>,
) -> Map<Seq<char>, Seq<Seq<u8>>> {
    with_id(
        with_id(fields, "x-request-id"@, Some(request_id)),
        "headroom-upstream-request-id"@,
        upstream_request_id,
    )
}

/// Puts the identifiers of a request into the response to the client.
pub fn stamp_response_headers(
    headers: &mut HeaderMap,
    request_id: &str,
    upstream_request_id: Option<&str>,
)
    requires
        has_room(header_fields(*old(headers)), 2),
    ensures
        header_fields(*final(headers)) == stamped(
            header_fields(*old(headers)),
            request_id@,
            optional_view(upstream_request_id),
        ),
{
    proof {
        reveal_strlit("x-request-id");
        reveal_strlit("headroom-upstream-request-id");
    }
    if let Ok(value) = HeaderValue::from_str(request_id) {
        header_insert(headers, "x-request-id", value);
    }
    if let Some(id) = upstream_request_id {
        if let Ok(value) = HeaderValue::from_str(id) {
            header_insert(headers, "headroom-upstream-request-id", value);
        }
    }
}

/// The identifier that the upstream gave a request: Anthropic's header, or else
/// OpenAI's.
pub open spec fn upstream_id(fields: Map<Seq<char>, Seq<Seq<u8>>>) -> Option<Seq<char>> {
    match field_text(fields, "request-id"@) {
        Some(id) => Some(id),
        None => field_text(fields, "x-request-id"@),
    }
}

proof fn lemma_ascii_is_sendable(id: Seq<char>)
    requires
        forall|i: int| 0 <= i < id.len() ==> (' ' <= #[trigger] id[i] <= '~' || id[i] == '\t'),
    ensures
        is_sendable(id),
{
    is_ascii_chars_encode_utf8(id);
    assert forall|i: int| 0 <= i < encode_utf8(id).len() implies is_field_byte(
        #[trigger] encode_utf8(id)[i],
    ) by {
        assert(' ' <= id[i] <= '~' || id[i] == '\t');
    }
}

/// The text of a header can be sent as a header again.
pub proof fn law_field_text_is_sendable(fields: Map<Seq<char>, Seq<Seq<u8>>>, name: Seq<char>)
    ensures
        field_text(fields, name) matches Some(id) ==> is_sendable(id),
{
    if let Some(id) = field_text(fields, name) {
        let bytes = fields[lower(name)][0];
        assert forall|i: int| 0 <= i < id.len() implies (' ' <= #[trigger] id[i] <= '~' || id[i]
            == '\t') by {
            assert(is_visible_ascii(bytes[i]));
        }
        lemma_ascii_is_sendable(id);
    }
}

/// A random identifier can be sent as a header.
pub proof fn law_random_id_is_sendable(id: Seq<char>)
    requires
        is_random_uuid_text(id),
    ensures
        is_sendable(id),
{
    lemma_ascii_is_sendable(id);
}

/// The client always learns the proxy's identifier of its request, under a name
/// that holds nothing else.
pub proof fn law_request_id_is_echoed(
    request: Map<Seq<char>, Seq<Seq<u8>>>,
    response: Map<Seq<char>, Seq<Seq<u8>>>,
    request_id: Seq<char>,
    upstream_request_id: Option<Seq<char>>,
)
    requires
        match field_text(request, "x-request-id"@) {
            Some(id) => request_id == id,
            None => is_random_uuid_text(request_id),
        },
    ensures
        stamped(response, request_id, upstream_request_id).contains_key("x-request-id"@),
        stamped(response, request_id, upstream_request_id)["x-request-id"@] == seq![
            encode_utf8(request_id),
        ],
{
    law_field_text_is_sendable(request, "x-request-id"@);
    if field_text(request, "x-request-id"@) is None {
        law_random_id_is_sendable(request_id);
    }
    reveal_strlit("x-request-id");
    reveal_strlit("headroom-upstream-request-id");
}

/// The upstream's identifier, where it gave one, reaches the client under a name
/// of its own and is never taken for the proxy's.
pub proof fn law_upstream_id_is_kept_apart(
    response: Map<Seq<char>, Seq<Seq<u8>>>,
    request_id: Seq<char>,
    upstream: Map<Seq<char>, Seq<Seq<u8>>>,
)
    requires
        is_sendable(request_id),
    ensures
        ({
            let fields = stamped(response, request_id, upstream_id(upstream));
            &&& fields["x-request-id"@] == seq![encode_utf8(request_id)]
            &&& upstream_id(upstream) matches Some(id) ==> fields.contains_key(
                "headroom-upstream-request-id"@,
            ) && fields["headroom-upstream-request-id"@] == seq![encode_utf8(id)]
        }),
{
    law_field_text_is_sendable(upstream, "request-id"@);
    law_field_text_is_sendable(upstream, "x-request-id"@);
    reveal_strlit("x-request-id");
    reveal_strlit("headroom-upstream-request-id");
}

/// Every field but the two identifiers reaches the client as it came.
pub proof fn law_other_fields_are_kept(
    response: Map<Seq<char>, Seq<Seq<u8>>>,
    request_id: Seq<char>,
    upstream_request_id: Option<Seq<char>>,
    name: Seq<char>,
)
    requires
        name != "x-request-id"@,
        name != "headroom-upstream-request-id"@,
    ensures
        ({
            let fields = stamped(response, request_id, upstream_request_id);
            &&& fields.contains_key(name) <==> response.contains_key(name)
            &&& response.contains_key(name) ==> fields[name] == response[name]
        }),
{
}

/// Whether `text` can stand in a header value and be read from it as text.
pub open spec fn is_header_text(text: Seq<char>) -> bool {
    forall|i: int| 0 <= i < text.len() ==> (' ' <= #[trigger] text[i] <= '~' || text[i] == '\t')
}

/// What was written into a field is what is read from it, whatever follows as
/// further values of that field and whatever other fields there are.
pub proof fn law_fields_read_back(
    others: Map<Seq<char>, Seq<Seq<u8>>>,
    name: Seq<char>,
    text: Seq<char>,
    more: Seq<Seq<u8>>,
)
    requires
        is_header_text(text),
    ensures
        field_text(others.insert(lower(name), seq![encode_utf8(text)] + more), name) == Some(text),
{
    let bytes = encode_utf8(text);
    let fields = others.insert(lower(name), seq![bytes] + more);
    is_ascii_chars_encode_utf8(text);
    assert(fields[lower(name)][0] == bytes);
    assert forall|i: int| 0 <= i < bytes.len() implies is_visible_ascii(#[trigger] bytes[i]) by {
        assert(bytes[i] == text[i] as u8);
    }
    assert forall|i: int| 0 <= i < text.len() implies ascii_text(bytes)[i] == text[i] by {
        assert(bytes[i] == text[i] as u8);
    }
    assert(ascii_text(bytes) =~= text);
}

/// A field that is not there, or whose first value holds a byte that is no text,
/// is not read.
pub proof fn law_other_fields_are_not_read(fields: Map<Seq<char>, Seq<Seq<u8>>>, name: Seq<char>)
    ensures
        !fields.contains_key(lower(name)) ==> field_text(fields, name) is None,
        (exists|i: int|
            0 <= i < fields[lower(name)][0].len() && !(32 <= #[trigger] fields[lower(name)][0][i]
                < 127 || fields[lower(name)][0][i] == 9)) ==> field_text(fields, name) is None,
        field_text(fields, name) matches Some(text) ==> is_header_text(text),
{
    if let Some(text) = field_text(fields, name) {
        let bytes = fields[lower(name)][0];
        assert forall|i: int| 0 <= i < text.len() implies (' ' <= #[trigger] text[i] <= '~'
            || text[i] == '\t') by {
            assert(is_visible_ascii(bytes[i]));
        }
    }
}

/// A field is found by its name in any case, and what is read depends on that
/// field alone.
pub proof fn law_fields_go_by_name(
    a: Map<Seq<char>, Seq<Seq<u8>>>,
    name_a: Seq<char>,
    b: Map<Seq<char>, Seq<Seq<u8>>>,
    name_b: Seq<char>,
)
    requires
        same_ignoring_case(name_a, name_b),
        a.contains_key(lower(name_a)) == b.contains_key(lower(name_b)),
        a.contains_key(lower(name_a)) ==> a[lower(name_a)][0] == b[lower(name_b)][0],
    ensures
        field_text(a, name_a) == field_text(b, name_b),
{
    law_lower_is_one_for_all_cases(name_a, name_b);
}

/// A media type is what stands in a value without the white space around it.
pub proof fn law_media_type_is_the_value(a: Seq<char>, value: Seq<char>, b: Seq<char>)
    requires
        is_blank(a),
        is_blank(b),
        has_bare_ends(value),
        !value.contains(';'),
    ensures
        media_type(a + value + b) == value,
{
    let all = a + value + b;
    assert forall|i: int| 0 <= i < all.len() implies all[i] != ';' by {
        if i < a.len() {
            assert(is_space(a[i]));
        } else if i < a.len() + value.len() {
            assert(value.contains(value[i - a.len()]));
        } else {
            assert(is_space(b[i - a.len() - value.len()]));
        }
    }
    law_before_ends_at_the_separator(all, ';');
    law_trim_takes_the_outer_space(a, value, b);
}

/// A body has a content type exactly where that is the media type of its
/// `Content-Type`, whatever the case, the white space around it and the
/// parameters after it; no other field plays a part.
pub proof fn law_content_type_is_the_media_type(
    fields: Map<Seq<char>, Seq<Seq<u8>>>,
    a: Seq<char>,
    value: Seq<char>,
    b: Seq<char>,
    parameters: Seq<char>,
    expected: Seq<char>,
)
    requires
        is_blank(a),
        is_blank(b),
        has_bare_ends(value),
        !value.contains(';'),
        field_text(fields, "content-type"@) == Some(a + value + b) || field_text(
            fields,
            "content-type"@,
        ) == Some((a + value + b).push(';') + parameters),
    ensures
        has_content_type(fields, expected) <==> same_ignoring_case(value, expected),
{
    law_media_type_is_the_value(a, value, b);
    law_parameters_do_not_matter(a + value + b, parameters);
}

/// A body without a `Content-Type` that is text has none.
pub proof fn law_no_content_type(fields: Map<Seq<char>, Seq<Seq<u8>>>, expected: Seq<char>)
    requires
        field_text(fields, "content-type"@) is None,
    ensures
        !has_content_type(fields, expected),
{
}

/// A list has a token exactly where one of its parts has it.
pub proof fn law_one_listed_token_is_enough(a: Seq<char>, b: Seq<char>, token: Seq<char>)
    ensures
        lists_token(a.push(',') + b, token) <==> lists_token(a, token) || lists_token(b, token),
{
    let joined = a.push(',') + b;
    let n = fields(a, ',').len();
    lemma_fields_join(a, b, ',');
    assert(forall|i: int| 0 <= i < n ==> #[trigger] fields(a, ',')[i] == fields(joined, ',')[i]);
    assert(forall|i: int|
        0 <= i < fields(b, ',').len() ==> #[trigger] fields(b, ',')[i] == fields(joined, ',')[n
            + i]);
    if lists_token(joined, token) {
        let i = choose|i: int|
            0 <= i < fields(joined, ',').len() && same_ignoring_case(
                trim(#[trigger] fields(joined, ',')[i]),
                token,
            );
        if i < n {
            assert(fields(a, ',')[i] == fields(joined, ',')[i]);
        } else {
            assert(fields(b, ',')[i - n] == fields(joined, ',')[i]);
        }
    }
}

/// A single entry lists itself, whatever the case and the white space around it,
/// and nothing else.
pub proof fn law_an_entry_lists_itself(
    a: Seq<char>,
    entry: Seq<char>,
    b: Seq<char>,
    token: Seq<char>,
)
    requires
        is_blank(a),
        is_blank(b),
        has_bare_ends(entry),
        !entry.contains(','),
    ensures
        lists_token(a + entry + b, token) <==> same_ignoring_case(entry, token),
{
    let all = a + entry + b;
    assert forall|i: int| 0 <= i < all.len() implies all[i] != ',' by {
        if i < a.len() {
            assert(is_space(a[i]));
        } else if i < a.len() + entry.len() {
            assert(entry.contains(entry[i - a.len()]));
        } else {
            assert(is_space(b[i - a.len() - entry.len()]));
        }
    }
    law_one_field(all, ',');
    law_trim_takes_the_outer_space(a, entry, b);
    assert(fields(all, ',')[0] == all);
}

/// A request asks for a WebSocket exactly where its `Upgrade` is `websocket` and
/// its `Connection` lists `upgrade`; no other field plays a part.
pub proof fn law_websockets_take_two_fields(
    fields: Map<Seq<char>, Seq<Seq<u8>>>,
    upgrade: Seq<char>,
    connection: Seq<char>,
)
    ensures
        field_text(fields, "upgrade"@) is None ==> !asks_for_websocket(fields),
        field_text(fields, "connection"@) is None ==> !asks_for_websocket(fields),
        field_text(fields, "upgrade"@) == Some(upgrade) && field_text(fields, "connection"@) == Some(
            connection,
        ) ==> (asks_for_websocket(fields) <==> same_ignoring_case(upgrade, "websocket"@)
            && lists_token(connection, "upgrade"@)),
{
}

/// The length that a request announces is the number in its `Content-Length`.
pub proof fn law_length_is_the_number(fields: Map<Seq<char>, Seq<Seq<u8>>>, n: u64)
    ensures
        field_text(fields, "content-length"@) == Some(decimal(n as nat)) ==> announced_length(
            fields,
        ) == Some(n),
        field_text(fields, "content-length"@) is None ==> announced_length(fields) is None,
        announced_length(fields) == Some(n) ==> (field_text(fields, "content-length"@) matches Some(
            text,
        ) && parsed_u64(text) == Some(n)),
{
    law_numbers_are_read(n as nat);
}

/// The upstream sees the client's `Host` unless it is to see its own name, and
/// every other field stays as it was prepared.
pub proof fn law_host_is_kept(
    outgoing: Map<Seq<char>, Seq<Seq<u8>>>,
    incoming: Map<Seq<char>, Seq<Seq<u8>>>,
    rewrite_host: bool,
    name: Seq<char>,
)
    ensures
        rewrite_host || !incoming.contains_key("host"@) ==> host_kept(
            outgoing,
            incoming,
            rewrite_host,
        ) == outgoing,
        ({
            let kept = host_kept(outgoing, incoming, rewrite_host);
            &&& name != "host"@ ==> (kept.contains_key(name) <==> outgoing.contains_key(name))
            &&& name != "host"@ && outgoing.contains_key(name) ==> kept[name] == outgoing[name]
            &&& !rewrite_host && incoming.contains_key("host"@) ==> kept.contains_key("host"@)
                && kept["host"@].len() == 1 && kept["host"@][0] == incoming["host"@][0]
        }),
{
}

/// An identifier that the upstream did not give, or that cannot be sent, is not
/// made up: its field is as the upstream left it.
pub proof fn law_no_identifier_is_made_up(
    response: Map<Seq<char>, Seq<Seq<u8>>>,
    request_id: Seq<char>,
    upstream_request_id: Option<Seq<char>>,
)
    ensures
        ({
            let fields = stamped(response, request_id, upstream_request_id);
            let name = "headroom-upstream-request-id"@;
            &&& !(upstream_request_id matches Some(id) && is_sendable(id)) ==> (fields.contains_key(
                name,
            ) <==> response.contains_key(name)) && (response.contains_key(name) ==> fields[name]
                == response[name])
            &&& !is_sendable(request_id) ==> (fields.contains_key("x-request-id"@)
                <==> response.contains_key("x-request-id"@)) && (response.contains_key(
                "x-request-id"@,
            ) ==> fields["x-request-id"@] == response["x-request-id"@])
        }),
{
    reveal_strlit("x-request-id");
    reveal_strlit("headroom-upstream-request-id");
    let own = "x-request-id"@;
    let name = "headroom-upstream-request-id"@;
    assert(own.len() != name.len());
    let first = with_id(response, own, Some(request_id));
    assert(first.contains_key(name) <==> response.contains_key(name));
    assert(response.contains_key(name) ==> first[name] == response[name]);
    assert(stamped(response, request_id, upstream_request_id).contains_key(own)
        <==> first.contains_key(own));
    assert(first.contains_key(own) ==> stamped(response, request_id, upstream_request_id)[own]
        == first[own]);
}

/// The upstream's identifier is Anthropic's wherever there is one, and OpenAI's
/// only otherwise; no other field plays a part.
pub proof fn law_anthropic_identifiers_come_first(fields: Map<Seq<char>, Seq<Seq<u8>>>)
    ensures
        field_text(fields, "request-id"@) is Some ==> upstream_id(fields) == field_text(
            fields,
            "request-id"@,
        ),
        field_text(fields, "request-id"@) is None ==> upstream_id(fields) == field_text(
            fields,
            "x-request-id"@,
        ),
{
}

/// An identifier can be sent exactly where none of its characters is a control
/// character other than the tab.
pub proof fn law_control_characters_are_not_sent(id: Seq<char>)
    requires
        forall|i: int| 0 <= i < id.len() ==> '\0' <= #[trigger] id[i] <= '\u{7f}',
    ensures
        is_sendable(id) <==> is_header_text(id),
{
    is_ascii_chars_encode_utf8(id);
    let bytes = encode_utf8(id);
    if is_sendable(id) {
        assert forall|i: int| 0 <= i < id.len() implies (' ' <= #[trigger] id[i] <= '~' || id[i]
            == '\t') by {
            assert(is_field_byte(bytes[i]));
            assert(bytes[i] == id[i] as u8);
        }
    }
    if is_header_text(id) {
        assert forall|i: int| 0 <= i < bytes.len() implies is_field_byte(#[trigger] bytes[i]) by {
            assert(bytes[i] == id[i] as u8);
        }
    }
}

} // verus!
