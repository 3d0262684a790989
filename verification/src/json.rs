//! JSON documents as `serde_json` reads them, and what the library relies
//! on of that crate. Nothing in this file is proved: every function states
//! what the crate's function of the same purpose does.

use vstd::prelude::*;

verus! {

/// `serde_json::Value`, a JSON document in memory. Nothing is known of a
/// value but what the functions below say.
#[verifier::external_type_specification]
#[verifier::external_body]
pub struct ExValue(serde_json::Value);

/// `serde_json::Error`, the reason why a text could not be read. It is
/// carried, never looked into.
#[verifier::external_type_specification]
#[verifier::external_body]
pub struct ExJsonError(serde_json::Error);

/// What a JSON document holds.
pub enum Json {
    Null,
    Bool(bool),
    /// A number that is held as an integer.
    Integer(int),
    /// A number that is held as a floating-point value.
    Real,
    Text(Seq<char>),
    Array(Seq<Json>),
    /// The members of an object, by key.
    Object(Map<Seq<char>, Json>),
}

/// What a `serde_json::Value` holds.
pub uninterp spec fn json_model(value: serde_json::Value) -> Json;

/// What `serde_json::from_str` reads from a text: the document, or `None`
/// where the text is not one JSON document.
pub uninterp spec fn json_parse(text: Seq<char>) -> Option<Json>;

/// `serde_json::from_str` at `serde_json::Value`: succeeds exactly on the
/// texts that are one JSON document, and gives that document.
#[verifier::external_body]
pub(crate) fn parse(text: &str) -> (r: Result<serde_json::Value, serde_json::Error>)
    ensures
        r is Ok <==> json_parse(text@) is Some,
        r matches Ok(value) ==> json_parse(text@) == Some(json_model(value)),
{
    serde_json::from_str::<serde_json::Value>(text)
}

/// `serde_json::Value::get` with a key: the member of that key, where the
/// value is an object that has one.
#[verifier::external_body]
pub(crate) fn member<'a>(value: &'a serde_json::Value, key: &str) -> (r: Option<
    &'a serde_json::Value,
>)
    ensures
        r is Some <==> (json_model(*value) matches Json::Object(members) && members.contains_key(
            key@,
        )),
        r matches Some(found) ==> (json_model(*value) matches Json::Object(members)
            && members[key@] == json_model(*found)),
{
    value.get(key)
}

/// `serde_json::Value::get` with a position: the element at that position,
/// where the value is an array that is long enough.
#[verifier::external_body]
pub(crate) fn element<'a>(value: &'a serde_json::Value, position: usize) -> (r: Option<
    &'a serde_json::Value,
>)
    ensures
        r is Some <==> (json_model(*value) matches Json::Array(items) && position < items.len()),
        r matches Some(found) ==> (json_model(*value) matches Json::Array(items) && items[position as int]
            == json_model(*found)),
{
    value.get(position)
}

/// `serde_json::Value::as_str`: the text, where the value is a string.
#[verifier::external_body]
pub(crate) fn as_text<'a>(value: &'a serde_json::Value) -> (r: Option<&'a str>)
    ensures
        r is Some <==> json_model(*value) is Text,
        r matches Some(text) ==> json_model(*value) == Json::Text(text@),
{
    value.as_str()
}

/// `serde_json::Value::as_i64`: the number, where the value is a number
/// held as an integer that fits in `i64`.
#[verifier::external_body]
pub(crate) fn as_integer(value: &serde_json::Value) -> (r: Option<i64>)
    ensures
        r is Some <==> (json_model(*value) matches Json::Integer(number) && i64::MIN <= number
            <= i64::MAX),
        r matches Some(number) ==> json_model(*value) == Json::Integer(number as int),
{
    value.as_i64()
}

/// `serde_json::Value::is_null`.
#[verifier::external_body]
pub(crate) fn is_null(value: &serde_json::Value) -> (r: bool)
    ensures
        r == (json_model(*value) is Null),
{
    value.is_null()
}

} // verus!
