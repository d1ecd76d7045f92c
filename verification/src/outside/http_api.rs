//! Header maps and header values of the `http` crate.

use crate::text::lower;
use http::header::{InvalidHeaderValue, ToStrError};
use http::{HeaderMap, HeaderValue};
use vstd::prelude::*;
use vstd::utf8::*;

verus! {

/// `http::HeaderMap`, a multimap from header names to values.
#[verifier::external_type_specification]
#[verifier::external_body]
#[verifier::reject_recursive_types(T)]
pub struct ExHeaderMap<T>(http::HeaderMap<T>);

/// `http::HeaderValue`, the bytes of one header field.
#[verifier::external_type_specification]
#[verifier::external_body]
pub struct ExHeaderValue(http::HeaderValue);

/// The error of `http::HeaderValue::to_str`.
#[verifier::external_type_specification]
#[verifier::external_body]
pub struct ExToStrError(http::header::ToStrError);

/// The error of `http::HeaderValue::from_str`.
#[verifier::external_type_specification]
#[verifier::external_body]
pub struct ExInvalidHeaderValue(http::header::InvalidHeaderValue);

/// What a header map holds: under each name, in lower case, the values of that
/// field in the order in which they were added.
pub uninterp spec fn header_fields(headers: HeaderMap) -> Map<Seq<char>, Seq<Seq<u8>>>;

/// The bytes that a header value holds.
pub uninterp spec fn value_bytes(value: HeaderValue) -> Seq<u8>;

/// The bytes that `http::HeaderValue::to_str` takes for text: visible ASCII,
/// the space and the tab.
pub open spec fn is_visible_ascii(b: u8) -> bool {
    32 <= b < 127 || b == 9
}

/// The bytes that a header value may hold.
pub open spec fn is_field_byte(b: u8) -> bool {
    (32 <= b && b != 127) || b == 9
}

/// ASCII bytes read as characters.
pub open spec fn ascii_text(bytes: Seq<u8>) -> Seq<char> {
    Seq::new(bytes.len(), |i: int| bytes[i] as char)
}

/// A field name in the form that header maps keep: small letters, digits and
/// hyphens.
pub open spec fn is_plain_name(name: Seq<char>) -> bool {
    &&& 1 <= name.len() <= 64
    &&& forall|i: int|
        0 <= i < name.len() ==> ('a' <= #[trigger] name[i] <= 'z' || '0' <= name[i] <= '9'
            || name[i] == '-')
}

/// Whether there are `n` names among `fields`.
pub open spec fn has_names(fields: Map<Seq<char>, Seq<Seq<u8>>>, n: nat) -> bool {
    fields.dom().finite() && fields.dom().len() == n
}

/// Whether a header map can take `extra` more names. A map refuses to grow once
/// its index table has reached its largest size of 32768 slots, and it may ask
/// to grow as soon as a fifth of the slots are taken.
pub open spec fn has_room(fields: Map<Seq<char>, Seq<Seq<u8>>>, extra: nat) -> bool {
    fields.dom().finite() && fields.dom().len() + extra <= 6553
}

/// `http::HeaderMap::get`: the first value of the field `name`, whatever the
/// case of its letters; nothing where the map has no such field.
#[verifier::external_body]
pub(crate) fn header_get<'a>(headers: &'a HeaderMap, name: &str) -> (r: Option<&'a HeaderValue>)
    ensures
        match r {
            Some(value) => {
                &&& header_fields(*headers).contains_key(lower(name@))
                &&& header_fields(*headers)[lower(name@)].len() > 0
                &&& value_bytes(*value) == header_fields(*headers)[lower(name@)][0]
            },
            None => !header_fields(*headers).contains_key(lower(name@)),
        },
{
    headers.get(name)
}

/// `http::HeaderMap::keys_len`: how many different names the map holds.
#[verifier::external_body]
pub(crate) fn header_count(headers: &HeaderMap) -> (r: usize)
    ensures
        has_names(header_fields(*headers), r as nat),
{
    headers.keys_len()
}

/// `http::HeaderMap::insert`: the field `name` now has `value` and no other;
/// every other field is as it was.
#[verifier::external_body]
pub(crate) fn header_insert(headers: &mut HeaderMap, name: &'static str, value: HeaderValue)
    requires
        is_plain_name(name@),
        has_room(header_fields(*old(headers)), 1),
    ensures
        header_fields(*final(headers)) == header_fields(*old(headers)).insert(
            name@,
            seq![value_bytes(value)],
        ),
{
    headers.insert(name, value);
}

/// `http::HeaderValue::to_str`: the value as text where all its bytes are
/// visible ASCII, spaces or tabs, and an error otherwise.
pub assume_specification[ HeaderValue::to_str ](value: &HeaderValue) -> (r: Result<&str, ToStrError>)
    ensures
        r is Ok <==> (forall|i: int|
            0 <= i < value_bytes(*value).len() ==> is_visible_ascii(
                #[trigger] value_bytes(*value)[i],
            )),
        r matches Ok(s) ==> s@ == ascii_text(value_bytes(*value)),
;

/// `http::HeaderValue::from_str`: a value that holds the UTF-8 bytes of `src`,
/// unless one of them is a control character other than the tab.
pub assume_specification[ HeaderValue::from_str ](src: &str) -> (r: Result<
    HeaderValue,
    InvalidHeaderValue,
>)
    ensures
        r is Ok <==> (forall|i: int|
            0 <= i < encode_utf8(src@).len() ==> is_field_byte(#[trigger] encode_utf8(src@)[i])),
        r matches Ok(v) ==> value_bytes(v) == encode_utf8(src@),
;

/// `<http::HeaderValue as Clone>::clone`: a value with the same bytes.
pub assume_specification[ <HeaderValue as Clone>::clone ](value: &HeaderValue) -> (r: HeaderValue)
    ensures
        value_bytes(r) == value_bytes(*value),
;

} // verus!
