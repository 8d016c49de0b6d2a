//! JSON values of `serde_json`, carried through the library as opaque values.
use vstd::prelude::*;
use crate::text::opt_text;

verus! {

/// A JSON value (`serde_json::Value`); the library reads nothing inside it.
#[verifier::external_type_specification]
#[verifier::external_body]
pub struct ExJsonValue(serde_json::Value);

/// `Clone` of `serde_json::Value`.
///
/// Trusted: `serde_json::Value` derives `Clone`, whose result equals the value cloned.
pub assume_specification[ <serde_json::Value as Clone>::clone ](v: &serde_json::Value) -> (r:
    serde_json::Value)
    ensures
        r == *v,
;

/// The JSON value that a text holds, as `serde_json::from_str` parses it; none where the text
/// is not valid JSON.
pub uninterp spec fn json_parsed(text: Seq<char>) -> Option<serde_json::Value>;

/// Parses JSON text (`serde_json::from_str::<Value>`); none where the text is not valid JSON.
///
/// Trusted: the result is a function of the text alone, named `json_parsed`; the text `{}`
/// is valid JSON (an empty object).
#[verifier::external_body]
pub(crate) fn parse_json(text: &str) -> (r: Option<serde_json::Value>)
    ensures
        r == json_parsed(text@),
        text@ == "{}"@ ==> r is Some,
{
    serde_json::from_str::<serde_json::Value>(text).ok()
}

/// The empty JSON object: what `{}` parses to.
pub open spec fn empty_json_object() -> serde_json::Value {
    json_parsed("{}"@)->0
}

/// The JSON value that a text stands for (a tool call's arguments, a tool's parameter schema):
/// the value it parses to, or the empty object where it is not valid JSON.
pub open spec fn json_of_text(text: Seq<char>) -> serde_json::Value {
    match json_parsed(text) {
        Some(v) => v,
        None => empty_json_object(),
    }
}

/// Parses JSON text, falling back to the empty object where the text is not valid JSON.
pub fn parse_json_text(text: &str) -> (v: serde_json::Value)
    ensures
        v == json_of_text(text@),
{
    match parse_json(text) {
        Some(v) => v,
        None => parse_json("{}").unwrap(),
    }
}

/// The string that a JSON value holds under `key`: none when it is not an object, has no
/// such key, or holds something other than a string there.
pub uninterp spec fn json_string_at(value: serde_json::Value, key: Seq<char>) -> Option<Seq<char>>;

/// The string that a JSON object holds under `key` (`Value::get`, then `Value::as_str`).
///
/// Trusted: the result is a function of the value and the key alone, named `json_string_at`.
#[verifier::external_body]
pub(crate) fn string_field(v: &serde_json::Value, key: &str) -> (r: Option<String>)
    ensures
        opt_text(r) == json_string_at(*v, key@),
{
    v.get(key).and_then(|x| x.as_str()).map(|x| x.to_string())
}

/// The entries of a JSON object, in the object's order: none when the value is not an object.
pub uninterp spec fn json_entries(value: serde_json::Value) -> Option<Seq<(Seq<char>, serde_json::Value)>>;

/// The entries of a JSON object (`Value::as_object`, then the map's entries in order).
///
/// Trusted: the result is a function of the value alone, named `json_entries`.
#[verifier::external_body]
pub(crate) fn object_entries(v: &serde_json::Value) -> (r: Option<Vec<(String, serde_json::Value)>>)
    ensures
        match r {
            Some(es) => json_entries(*v) == Some(
                es@.map_values(|e: (String, serde_json::Value)| (e.0@, e.1)),
            ),
            None => json_entries(*v) is None,
        },
{
    v.as_object().map(|m| m.iter().map(|(k, x)| (k.clone(), x.clone())).collect())
}

/// The text a JSON string holds: none when the value is not a string.
pub uninterp spec fn json_str(value: serde_json::Value) -> Option<Seq<char>>;

/// The text of a JSON string (`Value::as_str`).
///
/// Trusted: the result is a function of the value alone, named `json_str`.
#[verifier::external_body]
pub(crate) fn as_text(v: &serde_json::Value) -> (r: Option<String>)
    ensures
        opt_text(r) == json_str(*v),
{
    v.as_str().map(|s| s.to_string())
}

/// The compact JSON text of a value, as `Display` for `serde_json::Value` writes it.
pub uninterp spec fn json_value_text(value: serde_json::Value) -> Seq<char>;

/// The compact JSON text of a value (`Value::to_string`).
///
/// Trusted: the result is a function of the value alone, named `json_value_text`.
#[verifier::external_body]
pub(crate) fn json_text(v: &serde_json::Value) -> (s: String)
    ensures
        s@ == json_value_text(*v),
{
    v.to_string()
}

/// The JSON string holding a text.
pub uninterp spec fn json_string_value(text: Seq<char>) -> serde_json::Value;

/// The JSON string holding a text (`Value::String`).
///
/// Trusted: the result is a function of the text alone, named `json_string_value`.
#[verifier::external_body]
pub(crate) fn string_value(text: &str) -> (v: serde_json::Value)
    ensures
        v == json_string_value(text@),
{
    serde_json::Value::String(text.to_string())
}

/// The JSON boolean of a truth value.
pub uninterp spec fn json_bool_value(b: bool) -> serde_json::Value;

/// The JSON boolean of a truth value (`Value::Bool`).
///
/// Trusted: the result is a function of the truth value alone, named `json_bool_value`.
#[verifier::external_body]
pub(crate) fn bool_value(b: bool) -> (v: serde_json::Value)
    ensures
        v == json_bool_value(b),
{
    serde_json::Value::Bool(b)
}

/// The JSON object made of entries, in order (a later entry for a key replaces an earlier).
pub uninterp spec fn json_object(entries: Seq<(Seq<char>, serde_json::Value)>) -> serde_json::Value;

/// The JSON object made of entries (`Value::Object` of a `Map` collected from them).
///
/// Trusted: the result is a function of the entries alone, named `json_object`.
#[verifier::external_body]
pub(crate) fn object_value(entries: Vec<(String, serde_json::Value)>) -> (v: serde_json::Value)
    ensures
        v == json_object(entries@.map_values(|e: (String, serde_json::Value)| (e.0@, e.1))),
{
    serde_json::Value::Object(entries.into_iter().collect())
}

/// The pretty-printed JSON text of a value; none where serialising fails.
pub uninterp spec fn pretty_json_text(value: serde_json::Value) -> Option<Seq<char>>;

/// The pretty-printed JSON text of a value (`serde_json::to_string_pretty`).
///
/// Trusted: whether it succeeds and the text it gives are a function of the value alone,
/// named `pretty_json_text`; the error is carried through opaquely.
#[verifier::external_body]
pub(crate) fn pretty_json(v: &serde_json::Value) -> (r: Result<String, serde_json::Error>)
    ensures
        match r {
            Ok(t) => pretty_json_text(*v) == Some(t@),
            Err(_) => pretty_json_text(*v) is None,
        },
{
    serde_json::to_string_pretty(v)
}

/// The text a value is shown as: pretty-printed, or compact where pretty-printing fails.
pub open spec fn json_display_text(value: serde_json::Value) -> Seq<char> {
    match pretty_json_text(value) {
        Some(t) => t,
        None => json_value_text(value),
    }
}

/// The text a value is shown as (see `json_display_text`).
pub fn display_json(v: &serde_json::Value) -> (s: String)
    ensures
        s@ == json_display_text(*v),
{
    match pretty_json(v) {
        Ok(t) => t,
        Err(_) => json_text(v),
    }
}

/// The value a JSON object holds under `key`: none when it is not an object or has no such
/// key.
pub uninterp spec fn json_field(value: serde_json::Value, key: Seq<char>) -> Option<serde_json::Value>;

/// The value a JSON object holds under `key` (`Value::get`).
///
/// Trusted: the result is a function of the value and the key alone, named `json_field`.
#[verifier::external_body]
pub(crate) fn field_value(v: &serde_json::Value, key: &str) -> (r: Option<serde_json::Value>)
    ensures
        r == json_field(*v, key@),
{
    v.get(key).cloned()
}

/// The items of a JSON array, in order: none when the value is not an array.
pub uninterp spec fn json_items(value: serde_json::Value) -> Option<Seq<serde_json::Value>>;

/// The items of a JSON array (`Value::as_array`).
///
/// Trusted: the result is a function of the value alone, named `json_items`.
#[verifier::external_body]
pub(crate) fn array_items(v: &serde_json::Value) -> (r: Option<Vec<serde_json::Value>>)
    ensures
        match r {
            Some(items) => json_items(*v) == Some(items@),
            None => json_items(*v) is None,
        },
{
    v.as_array().cloned()
}

/// The JSON array of items, in order.
pub uninterp spec fn json_array(items: Seq<serde_json::Value>) -> serde_json::Value;

/// The JSON array of items (`Value::Array`).
///
/// Trusted: the result is a function of the items alone, named `json_array`.
#[verifier::external_body]
pub(crate) fn array_value(items: Vec<serde_json::Value>) -> (v: serde_json::Value)
    ensures
        v == json_array(items@),
{
    serde_json::Value::Array(items)
}

/// The unsigned integer a JSON number holds: none when the value is not such a number.
pub uninterp spec fn json_u64(value: serde_json::Value) -> Option<u64>;

/// The unsigned integer of a JSON number (`Value::as_u64`).
///
/// Trusted: the result is a function of the value alone, named `json_u64`.
#[verifier::external_body]
pub(crate) fn as_u64(v: &serde_json::Value) -> (r: Option<u64>)
    ensures
        r == json_u64(*v),
{
    v.as_u64()
}

/// The truth value a JSON boolean holds: none when the value is not a boolean.
pub uninterp spec fn json_bool(value: serde_json::Value) -> Option<bool>;

/// The truth value of a JSON boolean (`Value::as_bool`).
///
/// Trusted: the result is a function of the value alone, named `json_bool`.
#[verifier::external_body]
pub(crate) fn as_bool(v: &serde_json::Value) -> (r: Option<bool>)
    ensures
        r == json_bool(*v),
{
    v.as_bool()
}

/// The JSON number of an unsigned integer.
pub uninterp spec fn json_u64_value(n: u64) -> serde_json::Value;

/// The JSON number of an unsigned integer (`Value::from(u64)`).
///
/// Trusted: the result is a function of the number alone, named `json_u64_value`.
#[verifier::external_body]
pub(crate) fn u64_value(n: u64) -> (v: serde_json::Value)
    ensures
        v == json_u64_value(n),
{
    serde_json::Value::from(n)
}

} // verus!
