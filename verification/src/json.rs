//! JSON values as `serde_json` reads them, and what this library believes of them.
//!
//! A `serde_json::Value` is opaque here. What it holds is named by the functions below,
//! and each call into `serde_json` is said to return what the name says.
use vstd::prelude::*;

verus! {

/// `serde_json::Value`: any JSON value. Nothing inside it is visible here.
#[verifier::external_type_specification]
#[verifier::external_body]
pub struct ExJsonValue(serde_json::Value);

/// The JSON document that the whole of `text` is, where it is one.
pub uninterp spec fn json_document(text: Seq<char>) -> Option<serde_json::Value>;

/// The elements of `value`, where it is an array.
pub uninterp spec fn json_elements(value: serde_json::Value) -> Option<Seq<serde_json::Value>>;

/// The member of `value` under `key`, where `value` is an object that has one.
pub uninterp spec fn json_member(value: serde_json::Value, key: Seq<char>) -> Option<
    serde_json::Value,
>;

/// The text of `value`, where it is a string.
pub uninterp spec fn json_text(value: serde_json::Value) -> Option<Seq<char>>;

/// The number that `value` is, where it is an integer that fits in 64 bits with sign.
pub uninterp spec fn json_integer(value: serde_json::Value) -> Option<i64>;

/// `serde_json::from_str`, asked for a `Value`: the document that the whole of `text` is, or
/// nothing where it reports that `text` is not one JSON document. What it returns depends on
/// `text` alone.
#[verifier::external_body]
pub(crate) fn parse_json(text: &str) -> (parsed: Option<serde_json::Value>)
    ensures
        parsed == json_document(text@),
{
    serde_json::from_str::<serde_json::Value>(text).ok()
}

/// `Value::as_array`: the vector of elements where the value is an array, nothing otherwise.
#[verifier::external_body]
pub(crate) fn json_as_array(value: &serde_json::Value) -> (elements: Option<
    &Vec<serde_json::Value>,
>)
    ensures
        match elements {
            Some(items) => json_elements(*value) == Some(items@),
            None => json_elements(*value) is None,
        },
{
    value.as_array()
}

/// `Value::get` with a string: the member under that key where the value is an object that
/// has the key, nothing otherwise.
#[verifier::external_body]
pub(crate) fn json_get<'a>(value: &'a serde_json::Value, key: &str) -> (member: Option<
    &'a serde_json::Value,
>)
    ensures
        match member {
            Some(found) => json_member(*value, key@) == Some(*found),
            None => json_member(*value, key@) is None,
        },
{
    value.get(key)
}

/// `Value::as_str`: the text where the value is a string, nothing otherwise.
#[verifier::external_body]
pub(crate) fn json_as_str(value: &serde_json::Value) -> (text: Option<&str>)
    ensures
        match text {
            Some(t) => json_text(*value) == Some(t@),
            None => json_text(*value) is None,
        },
{
    value.as_str()
}

/// `Value::as_i64`: the number where the value is an integer that fits in 64 bits with
/// sign, nothing otherwise.
#[verifier::external_body]
pub(crate) fn json_as_i64(value: &serde_json::Value) -> (number: Option<i64>)
    ensures
        number == json_integer(*value),
{
    value.as_i64()
}

} // verus!
