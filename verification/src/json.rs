//! Access to JSON documents through serde_json. A parsed document is opaque
//! to the verifier, so each reading is given a name: an uninterpreted
//! function of the document alone, which the wrapper's contract applies.
//! Verified code then decides on the named plain values.

use vstd::prelude::*;

verus! {

#[verifier::external_type_specification]
#[verifier::external_body]
pub struct ExValue(serde_json::Value);

#[verifier::external_type_specification]
#[verifier::external_body]
pub struct ExJsonError(serde_json::Error);

/// The document a string parses to, when it is valid JSON.
pub uninterp spec fn json_doc_of(s: Seq<char>) -> Option<serde_json::Value>;

/// The value under an object key, when the value is an object holding it.
pub uninterp spec fn json_member(v: serde_json::Value, key: Seq<char>) -> Option<
    serde_json::Value,
>;

/// The text of a JSON string value; nothing for any other kind of value.
pub uninterp spec fn json_text_of(v: serde_json::Value) -> Option<Seq<char>>;

/// Whether a JSON value is the null value.
pub uninterp spec fn json_null_of(v: serde_json::Value) -> bool;

/// Whether a JSON value is an object.
pub uninterp spec fn json_object_of(v: serde_json::Value) -> bool;

/// Whether a JSON value is a boolean.
pub uninterp spec fn json_boolean_of(v: serde_json::Value) -> bool;

/// The value of a JSON boolean; nothing for any other kind of value.
pub uninterp spec fn json_bool_of(v: serde_json::Value) -> Option<bool>;

/// The value of a JSON integer that fits a 64-bit signed integer; nothing
/// otherwise.
pub uninterp spec fn json_int_of(v: serde_json::Value) -> Option<i64>;

/// Relies on `serde_json::from_str::<serde_json::Value>`: parses a JSON
/// document, or fails on malformed input; the outcome is a function of the
/// text alone, named `json_doc_of`.
#[verifier::external_body]
pub fn parse_json(s: &str) -> (r: Result<serde_json::Value, serde_json::Error>)
    ensures
        match r {
            Ok(v) => json_doc_of(s@) == Some(v),
            Err(_) => json_doc_of(s@) is None,
        },
{
    serde_json::from_str::<serde_json::Value>(s)
}

/// Relies on `serde_json::Value::get`: the value under an object key, when
/// the value is an object holding that key; a pure lookup, named
/// `json_member`.
#[verifier::external_body]
pub fn json_get<'a>(v: &'a serde_json::Value, key: &str) -> (r: Option<&'a serde_json::Value>)
    ensures
        match r {
            Some(m) => json_member(*v, key@) == Some(*m),
            None => json_member(*v, key@) is None,
        },
{
    v.get(key)
}

/// Relies on `serde_json::Value::as_str`: the text of a JSON string value,
/// owned; nothing for any other kind of value; named `json_text_of`.
#[verifier::external_body]
pub fn json_as_string(v: &serde_json::Value) -> (r: Option<String>)
    ensures
        match r {
            Some(s) => json_text_of(*v) == Some(s@),
            None => json_text_of(*v) is None,
        },
{
    v.as_str().map(|s| s.to_owned())
}

/// Relies on `serde_json::Value::is_null`; named `json_null_of`.
#[verifier::external_body]
pub fn json_is_null(v: &serde_json::Value) -> (r: bool)
    ensures
        r == json_null_of(*v),
{
    v.is_null()
}

/// Relies on `serde_json::Value::is_object`; named `json_object_of`.
#[verifier::external_body]
pub fn json_is_object(v: &serde_json::Value) -> (r: bool)
    ensures
        r == json_object_of(*v),
{
    v.is_object()
}

/// Relies on `serde_json::Value::is_boolean`; named `json_boolean_of`.
#[verifier::external_body]
pub fn json_is_boolean(v: &serde_json::Value) -> (r: bool)
    ensures
        r == json_boolean_of(*v),
{
    v.is_boolean()
}

/// Relies on `serde_json::Value::as_bool`: the value of a JSON boolean;
/// nothing for any other kind of value; named `json_bool_of`.
#[verifier::external_body]
pub fn json_as_bool(v: &serde_json::Value) -> (r: Option<bool>)
    ensures
        r == json_bool_of(*v),
{
    v.as_bool()
}

/// Relies on `serde_json::Value::as_i64`: the value of a JSON integer that
/// fits an i64; nothing otherwise; named `json_int_of`.
#[verifier::external_body]
pub fn json_as_i64(v: &serde_json::Value) -> (r: Option<i64>)
    ensures
        r == json_int_of(*v),
{
    v.as_i64()
}

} // verus!
