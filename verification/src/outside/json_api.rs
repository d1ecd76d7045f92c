//! JSON values of the `serde_json` crate.

use serde_json::Value;
use vstd::prelude::*;

verus! {

/// `serde_json::Value`, a JSON value.
#[verifier::external_type_specification]
#[verifier::external_body]
pub struct ExValue(serde_json::Value);

/// The error of `serde_json`'s readers and writers.
#[verifier::external_type_specification]
#[verifier::external_body]
pub struct ExJsonError(serde_json::Error);

/// What stands at one place inside a JSON value.
pub enum JsonNode {
    /// A string.
    Text(Seq<char>),
    /// A number that was written as a non-negative integer below 2^64.
    Count(u64),
    /// Any other number, `null`, a truth value, an array or an object.
    Other,
}

/// A JSON value as a map from places to what stands there. A place is the list
/// of object members that leads to it, so the value itself stands at the empty
/// list. What stands inside an array has no place.
pub type JsonTree = Map<Seq<Seq<char>>, JsonNode>;

/// What a JSON value holds.
pub uninterp spec fn json_tree(v: Value) -> Map<Seq<Seq<char>>, JsonNode>;

/// The value that `serde_json::from_slice` reads from bytes, or `None` where
/// it takes them for malformed.
pub uninterp spec fn json_value(bytes: Seq<u8>) -> Option<Value>;

/// The bytes that `serde_json::to_vec` writes for a value, or `None` where it
/// fails. They depend on the whole value, of which its tree shows only a part.
pub uninterp spec fn json_written(v: Value) -> Option<Seq<u8>>;

/// What the JSON value read from bytes holds.
pub open spec fn json_read(bytes: Seq<u8>) -> Option<JsonTree> {
    match json_value(bytes) {
        Some(v) => Some(json_tree(v)),
        None => None,
    }
}

/// Whether a line of `bytes` other than the first starts with `b`.
pub open spec fn has_line_starting(bytes: Seq<u8>, b: u8) -> bool {
    exists|i: int| 0 <= i < bytes.len() - 1 && #[trigger] bytes[i] == 10u8 && bytes[i + 1] == b
}

/// The place of the value itself.
pub open spec fn root() -> Seq<Seq<char>> {
    Seq::empty()
}

/// The subtree of `tree` under the member `key`.
pub open spec fn member_tree(tree: JsonTree, key: Seq<char>) -> JsonTree {
    Map::new(
        |place: Seq<Seq<char>>| tree.contains_key(seq![key] + place),
        |place: Seq<Seq<char>>| tree[seq![key] + place],
    )
}

/// `serde_json::from_slice` for a `serde_json::Value`: whether it succeeds, and
/// which value it then gives, depends on the bytes alone. Line breaks stand only
/// between the tokens of JSON, and no token starts with a small `d` (byte 100).
#[verifier::external_body]
pub(crate) fn parse_json(bytes: &[u8]) -> (r: Result<Value, serde_json::Error>)
    ensures
        match r {
            Ok(v) => json_value(bytes@) == Some(v) && !has_line_starting(bytes@, 100),
            Err(_) => json_value(bytes@) is None,
        },
{
    serde_json::from_slice(bytes)
}

/// `serde_json::to_vec` for a `serde_json::Value`: the bytes written, which
/// depend on the value alone.
#[verifier::external_body]
pub(crate) fn write_json(v: &Value) -> (r: Result<Vec<u8>, serde_json::Error>)
    ensures
        match r {
            Ok(bytes) => json_written(*v) == Some(bytes@),
            Err(_) => json_written(*v) is None,
        },
{
    serde_json::to_vec(v)
}

/// `serde_json::Value::get` with a string index: the member `key` where the
/// value is an object that has one.
#[verifier::external_body]
pub(crate) fn json_member<'a>(v: &'a Value, key: &str) -> (r: Option<&'a Value>)
    ensures
        match r {
            Some(member) => {
                &&& json_tree(*v).contains_key(seq![key@])
                &&& json_tree(*member) == member_tree(json_tree(*v), key@)
            },
            None => !json_tree(*v).contains_key(seq![key@]),
        },
{
    v.get(key)
}

/// `serde_json::Value::as_str`: the text of a string, nothing for any other
/// value.
pub assume_specification[ Value::as_str ](v: &Value) -> (r: Option<&str>)
    ensures
        match r {
            Some(s) => json_tree(*v)[root()] == JsonNode::Text(s@),
            None => !(json_tree(*v)[root()] is Text),
        },
;

/// `serde_json::Value::as_u64`: the value of a number written as a non-negative
/// integer below 2^64, nothing for any other value.
pub assume_specification[ Value::as_u64 ](v: &Value) -> (r: Option<u64>)
    ensures
        match r {
            Some(n) => json_tree(*v)[root()] == JsonNode::Count(n),
            None => !(json_tree(*v)[root()] is Count),
        },
;

} // verus!
