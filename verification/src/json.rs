//! JSON text as the web front end reads it back, from its storage and from the
//! embedding worker: `serde_json` parses it, and the library reads the parsed value
//! through the accessors below.

use vstd::prelude::*;

verus! {

#[verifier::external_type_specification]
#[verifier::external_body]
pub struct ExJsonValue(serde_json::Value);

/// A JSON value: `null`, a boolean, a number (with its value where it is an integer
/// that fits in a `u64`), a string, an array, or an object from keys to values.
pub enum JsonView {
    Null,
    Bool(bool),
    Number(Option<u64>),
    Str(Seq<char>),
    Array(Seq<JsonView>),
    Object(Map<Seq<char>, JsonView>),
}

/// What `serde_json` reads from a text: the value it holds, or nothing where the text
/// is not JSON.
pub uninterp spec fn json_text_value(raw: Seq<char>) -> Option<JsonView>;

/// What a parsed value holds.
pub uninterp spec fn json_contents(value: serde_json::Value) -> JsonView;

/// `serde_json::from_str::<serde_json::Value>`: the value that the text holds, or
/// `None` where it is not JSON; the contract names what the parser reads, it does not
/// state the grammar.
#[verifier::external_body]
pub(crate) fn parse_json(raw: &str) -> (r: Option<serde_json::Value>)
    ensures
        match r {
            Some(v) => json_text_value(raw@) == Some(json_contents(v)),
            None => json_text_value(raw@) is None,
        },
{
    serde_json::from_str::<serde_json::Value>(raw).ok()
}

/// `serde_json::Value::as_array`: the elements of an array, in order; `None` for any
/// other value.
#[verifier::external_body]
pub(crate) fn json_as_array(value: &serde_json::Value) -> (r: Option<&Vec<serde_json::Value>>)
    ensures
        match json_contents(*value) {
            JsonView::Array(items) => r matches Some(a) && a@.len() == items.len() && forall|i: int|
                0 <= i < items.len() ==> #[trigger] json_contents(a@[i]) == items[i],
            _ => r is None,
        },
{
    value.as_array()
}

/// `serde_json::Value::get` with a key: the value of that key in an object; `None`
/// where the object lacks the key or the value is not an object.
#[verifier::external_body]
pub(crate) fn json_get<'a>(value: &'a serde_json::Value, key: &str) -> (r: Option<
    &'a serde_json::Value,
>)
    ensures
        match json_contents(*value) {
            JsonView::Object(m) => if m.contains_key(key@) {
                r matches Some(v) && json_contents(*v) == m[key@]
            } else {
                r is None
            },
            _ => r is None,
        },
{
    value.get(key)
}

/// `serde_json::Value::as_str`: the text of a string; `None` for any other value.
#[verifier::external_body]
pub(crate) fn json_as_str(value: &serde_json::Value) -> (r: Option<&str>)
    ensures
        match json_contents(*value) {
            JsonView::Str(s) => r matches Some(t) && t@ == s,
            _ => r is None,
        },
{
    value.as_str()
}

/// `serde_json::Value::as_u64`: a number that is an integer fitting in a `u64`;
/// `None` for any other value.
#[verifier::external_body]
pub(crate) fn json_as_u64(value: &serde_json::Value) -> (r: Option<u64>)
    ensures
        match json_contents(*value) {
            JsonView::Number(n) => r == n,
            _ => r is None,
        },
{
    value.as_u64()
}

/// The value of `key` in an object, if it has one.
pub open spec fn json_field(v: JsonView, key: Seq<char>) -> Option<JsonView> {
    match v {
        JsonView::Object(m) => if m.contains_key(key) {
            Some(m[key])
        } else {
            None
        },
        _ => None,
    }
}

/// The text of `key` in an object, where it is a string.
pub open spec fn json_text_field(v: JsonView, key: Seq<char>) -> Option<Seq<char>> {
    match json_field(v, key) {
        Some(JsonView::Str(s)) => Some(s),
        _ => None,
    }
}

/// The number of `key` in an object, where it is an integer fitting in a `u64`.
pub open spec fn json_u64_field(v: JsonView, key: Seq<char>) -> Option<u64> {
    match json_field(v, key) {
        Some(JsonView::Number(n)) => n,
        _ => None,
    }
}

/// The text of a field of a parsed value, where it is a string.
pub fn text_field(value: &serde_json::Value, key: &str) -> (r: Option<String>)
    ensures
        match r {
            Some(s) => json_text_field(json_contents(*value), key@) == Some(s@),
            None => json_text_field(json_contents(*value), key@) is None,
        },
{
    match json_get(value, key) {
        Some(field) => match json_as_str(field) {
            Some(s) => Some(crate::text::owned(s)),
            None => None,
        },
        None => None,
    }
}

/// The number of a field of a parsed value, where it is an integer fitting in a `u64`.
pub fn u64_field(value: &serde_json::Value, key: &str) -> (r: Option<u64>)
    ensures
        r == json_u64_field(json_contents(*value), key@),
{
    match json_get(value, key) {
        Some(field) => json_as_u64(field),
        None => None,
    }
}

} // verus!
