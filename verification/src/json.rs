//! JSON values as `serde_json` parses them.
//!
//! A value is opaque here. What the recognizer's protocol reads of one (is it
//! an object, a member by its key, a string, a number) goes through the
//! trusted items of this module, each named by a function without a body.

use vstd::prelude::*;

verus! {

/// Trusted: `serde_json::Value`, any JSON value.
#[verifier::external_type_specification]
#[verifier::external_body]
pub struct ExValue(serde_json::Value);

/// Trusted: `serde_json::Error`, why a text is no JSON.
#[verifier::external_type_specification]
#[verifier::external_body]
pub struct ExError(serde_json::Error);

/// What `serde_json` makes of a text: the value it parses to, or the error.
pub uninterp spec fn json_parse(text: Seq<char>) -> Result<serde_json::Value, serde_json::Error>;

/// The message of a parse error.
pub uninterp spec fn json_error_text(e: serde_json::Error) -> Seq<char>;

/// The value is an object.
pub uninterp spec fn json_is_object(v: serde_json::Value) -> bool;

/// The member of an object under a key; none where the value is no object
/// or has no such member.
pub uninterp spec fn json_member(v: serde_json::Value, key: Seq<char>) -> Option<
    serde_json::Value,
>;

/// The characters of a value that is a string; none for any other value.
pub uninterp spec fn json_text(v: serde_json::Value) -> Option<Seq<char>>;

/// The IEEE 754 double-precision bits of a value that is a number, as
/// `serde_json` reads it as a float; none for any other value.
pub uninterp spec fn json_number(v: serde_json::Value) -> Option<u64>;

/// The items of a value that is an array; none for any other value.
pub uninterp spec fn json_items(v: serde_json::Value) -> Option<Seq<serde_json::Value>>;

/// The value is `null`.
pub uninterp spec fn json_is_null(v: serde_json::Value) -> bool;

/// The value written as indented JSON text.
pub uninterp spec fn json_pretty(v: serde_json::Value) -> Seq<char>;

/// Parses a text as one JSON value.
///
/// Trusted: `serde_json::from_str` at the type `Value`, which depends on the
/// text alone.
#[verifier::external_body]
pub(crate) fn parse_json(text: &str) -> (r: Result<serde_json::Value, serde_json::Error>)
    ensures
        r == json_parse(text@),
{
    serde_json::from_str::<serde_json::Value>(text)
}

/// The message of a parse error.
///
/// Trusted: the `Display` of `serde_json::Error`, which writes the error's
/// message with its line and column.
#[verifier::external_body]
pub(crate) fn error_text(e: &serde_json::Error) -> (s: String)
    ensures
        s@ == json_error_text(*e),
{
    e.to_string()
}

/// Decides whether a value is an object.
///
/// Trusted: `Value::is_object`.
#[verifier::external_body]
pub(crate) fn value_is_object(v: &serde_json::Value) -> (r: bool)
    ensures
        r == json_is_object(*v),
{
    v.is_object()
}

/// The member of an object under a key.
///
/// Trusted: `Value::get` with a string key, which gives the member of an
/// object under that key and nothing for a value that is no object.
#[verifier::external_body]
pub(crate) fn value_member<'a>(v: &'a serde_json::Value, key: &str) -> (r: Option<
    &'a serde_json::Value,
>)
    ensures
        match r {
            Some(member) => json_member(*v, key@) == Some(*member),
            None => json_member(*v, key@) is None,
        },
{
    v.get(key)
}

/// The characters of a value that is a string.
///
/// Trusted: `Value::as_str`.
#[verifier::external_body]
pub(crate) fn value_text<'a>(v: &'a serde_json::Value) -> (r: Option<&'a str>)
    ensures
        match r {
            Some(s) => json_text(*v) == Some(s@),
            None => json_text(*v) is None,
        },
{
    v.as_str()
}

/// The bits of a value that is a number.
///
/// Trusted: `Value::as_f64`, which reads any number as a float and gives
/// nothing for a value that is no number; the float is handed on as its
/// bits.
#[verifier::external_body]
pub(crate) fn value_number(v: &serde_json::Value) -> (r: Option<u64>)
    ensures
        r == json_number(*v),
{
    v.as_f64().map(|x| x.to_bits())
}

/// A copy of a value.
///
/// Trusted: the `Clone` of `serde_json::Value`, which gives an equal value.
#[verifier::external_body]
pub(crate) fn value_clone(v: &serde_json::Value) -> (r: serde_json::Value)
    ensures
        r == *v,
{
    v.clone()
}

/// The items of a value that is an array.
///
/// Trusted: `Value::as_array`.
#[verifier::external_body]
pub(crate) fn value_items<'a>(v: &'a serde_json::Value) -> (r: Option<&'a Vec<serde_json::Value>>)
    ensures
        match r {
            Some(items) => json_items(*v) == Some(items@),
            None => json_items(*v) is None,
        },
{
    v.as_array()
}

/// Decides whether a value is `null`.
///
/// Trusted: `Value::is_null`.
#[verifier::external_body]
pub(crate) fn value_is_null(v: &serde_json::Value) -> (r: bool)
    ensures
        r == json_is_null(*v),
{
    v.is_null()
}

/// The value written as indented JSON text.
///
/// Trusted: `serde_json::to_string_pretty` at the type `Value`, which
/// depends on the value alone; the empty text stands for a failure.
#[verifier::external_body]
pub(crate) fn value_pretty(v: &serde_json::Value) -> (s: String)
    ensures
        s@ == json_pretty(*v),
{
    serde_json::to_string_pretty(v).unwrap_or_default()
}

} // verus!
