//! JSON documents, as `serde_json` holds them.
//!
//! Verified code cannot look inside a `serde_json::Value`. This module gives
//! such a value a mathematical model, [`JsonValue`], and wraps each
//! `serde_json` function that the library calls in a function whose contract
//! says over that model what the call does. The contracts in this module are
//! assumed: they restate the behaviour of `serde_json` and are not proved.

use vstd::prelude::*;
use vstd::utf8::{decode_utf8, valid_utf8};

verus! {

/// `serde_json::Value`, a JSON document. What it holds is known through
/// [`json_model`] only.
#[verifier::external_type_specification]
#[verifier::external_body]
pub struct ExValue(serde_json::Value);

/// `serde_json::Map`, the members of a JSON object. What it holds is known
/// through [`json_members`] only.
#[verifier::external_type_specification]
#[verifier::external_body]
#[verifier::reject_recursive_types(K)]
#[verifier::reject_recursive_types(V)]
pub struct ExMap<K, V>(serde_json::Map<K, V>);

/// `std::string::FromUtf8Error`, the error of `String::from_utf8`. Nothing
/// is read from it.
#[verifier::external_type_specification]
#[verifier::external_body]
pub struct ExFromUtf8Error(std::string::FromUtf8Error);

/// A JSON document as a mathematical value.
pub enum JsonValue {
    /// `null`.
    Null,
    /// `true` or `false`.
    Bool(bool),
    /// A number that is an integer. `serde_json` holds the integers from the
    /// least `i64` to the greatest `u64`.
    Integer(int),
    /// Any other number, by the literal that `serde_json` prints for it.
    Real(Seq<char>),
    /// A string.
    Text(Seq<char>),
    /// An array, in order.
    Array(Seq<JsonValue>),
    /// An object: its members by key. Keys are unique and carry no order.
    Object(Map<Seq<char>, JsonValue>),
}

/// The members of a JSON object as a mathematical value: the documents by
/// their keys.
pub type Members = Map<Seq<char>, JsonValue>;

/// The members of a JSON object as `serde_json` holds them.
pub type JsonObject = serde_json::Map<String, serde_json::Value>;

/// The document that a `serde_json::Value` holds.
pub uninterp spec fn json_model(value: serde_json::Value) -> JsonValue;

/// The members that a `serde_json::Map` holds.
pub uninterp spec fn json_members(object: JsonObject) -> Members;

/// The compact text that `serde_json` writes for a document: no white
/// space, and the members of an object in the order of their keys.
pub uninterp spec fn json_text(document: JsonValue) -> Seq<char>;

/// The document that `serde_json` reads from a text, `None` where it rejects
/// the text.
pub uninterp spec fn json_parse(text: Seq<char>) -> Option<JsonValue>;

/// The members of the empty object.
pub open spec fn no_members() -> Members {
    Map::empty()
}

/// The models of a vector of values, in order.
pub open spec fn json_models(values: Seq<serde_json::Value>) -> Seq<JsonValue> {
    values.map_values(|value: serde_json::Value| json_model(value))
}

/// `serde_json::Value::Null`: the value `null`.
#[verifier::external_body]
pub(crate) fn null_value() -> (value: serde_json::Value)
    ensures
        json_model(value) == JsonValue::Null,
{
    serde_json::Value::Null
}

/// `From<bool> for serde_json::Value`: the boolean as `Value::Bool`.
#[verifier::external_body]
pub(crate) fn bool_value(flag: bool) -> (value: serde_json::Value)
    ensures
        json_model(value) == JsonValue::Bool(flag),
{
    serde_json::Value::from(flag)
}

/// `From<i64> for serde_json::Value`: the integer as `Value::Number`.
#[verifier::external_body]
pub(crate) fn integer_value(n: i64) -> (value: serde_json::Value)
    ensures
        json_model(value) == JsonValue::Integer(n as int),
{
    serde_json::Value::from(n)
}

/// `From<&str> for serde_json::Value`: a copy of the string as
/// `Value::String`.
#[verifier::external_body]
pub(crate) fn text_value(text: &str) -> (value: serde_json::Value)
    ensures
        json_model(value) == JsonValue::Text(text@),
{
    serde_json::Value::from(text)
}

/// `serde_json::Value::Array`: the values as one array, in their order.
#[verifier::external_body]
pub(crate) fn array_value(items: Vec<serde_json::Value>) -> (value: serde_json::Value)
    ensures
        json_model(value) == JsonValue::Array(json_models(items@)),
{
    serde_json::Value::Array(items)
}

/// `serde_json::Map::new`: a map without members.
#[verifier::external_body]
pub(crate) fn object_new() -> (object: JsonObject)
    ensures
        json_members(object) == no_members(),
{
    serde_json::Map::new()
}

/// `serde_json::Map::insert`: the map with the member `key` set to `value`,
/// in place of the member of that key if there was one; all other members
/// stay.
#[verifier::external_body]
pub(crate) fn object_insert(object: JsonObject, key: &str, value: serde_json::Value) -> (grown:
    JsonObject)
    ensures
        json_members(grown) == json_members(object).insert(key@, json_model(value)),
{
    let mut grown = object;
    grown.insert(key.to_owned(), value);
    grown
}

/// `serde_json::Value::Object`: the map as an object value.
#[verifier::external_body]
pub(crate) fn object_value(object: JsonObject) -> (value: serde_json::Value)
    ensures
        json_model(value) == JsonValue::Object(json_members(object)),
{
    serde_json::Value::Object(object)
}

/// `serde_json::Value::get` with a string index: the member `key` of an
/// object, `None` where the value is no object or has no such member.
#[verifier::external_body]
pub(crate) fn member<'a>(value: &'a serde_json::Value, key: &str) -> (found: Option<
    &'a serde_json::Value,
>)
    ensures
        match json_model(*value) {
            JsonValue::Object(members) => if members.dom().contains(key@) {
                found matches Some(inner) && json_model(*inner) == members[key@]
            } else {
                found is None
            },
            _ => found is None,
        },
{
    value.get(key)
}

/// `serde_json::Value::as_i64`: the number, where the value is an integer
/// that an `i64` can hold; `None` otherwise.
#[verifier::external_body]
pub(crate) fn as_integer(value: &serde_json::Value) -> (found: Option<i64>)
    ensures
        match json_model(*value) {
            JsonValue::Integer(n) => if i64::MIN <= n <= i64::MAX {
                found == Some(n as i64)
            } else {
                found is None
            },
            _ => found is None,
        },
{
    value.as_i64()
}

/// `serde_json::Value::as_u64`: the number, where the value is an integer
/// that is not negative; `None` otherwise. An integer that is held is never
/// below the least `i64` nor above the greatest `u64`.
#[verifier::external_body]
pub(crate) fn as_unsigned(value: &serde_json::Value) -> (found: Option<u64>)
    ensures
        match json_model(*value) {
            JsonValue::Integer(n) => i64::MIN <= n <= u64::MAX && found == if n >= 0 {
                Some(n as u64)
            } else {
                None
            },
            _ => found is None,
        },
{
    value.as_u64()
}

/// `serde_json::Value::as_str`: the string, where the value is one; `None`
/// otherwise.
#[verifier::external_body]
pub(crate) fn as_text<'a>(value: &'a serde_json::Value) -> (found: Option<&'a str>)
    ensures
        match json_model(*value) {
            JsonValue::Text(text) => found matches Some(s) && s@ == text,
            _ => found is None,
        },
{
    value.as_str()
}

/// `serde_json::Value`'s `to_string`: the compact JSON text of the value.
#[verifier::external_body]
pub(crate) fn to_text(value: &serde_json::Value) -> (text: String)
    ensures
        text@ == json_text(json_model(*value)),
{
    value.to_string()
}

/// `serde_json::from_str` at `serde_json::Value`: the document that the text
/// holds, `None` where `serde_json` rejects the text.
#[verifier::external_body]
pub(crate) fn parse(text: &str) -> (parsed: Option<serde_json::Value>)
    ensures
        match parsed {
            Some(value) => json_parse(text@) == Some(json_model(value)),
            None => json_parse(text@) is None,
        },
{
    serde_json::from_str::<serde_json::Value>(text).ok()
}

/// `String::from_utf8`: the bytes as a string where they are valid UTF-8,
/// an error where they are not.
#[verifier::external_body]
pub(crate) fn utf8_text(bytes: Vec<u8>) -> (decoded: Result<String, std::string::FromUtf8Error>)
    ensures
        match decoded {
            Ok(text) => valid_utf8(bytes@) && text@ == decode_utf8(bytes@),
            Err(_) => !valid_utf8(bytes@),
        },
{
    String::from_utf8(bytes)
}

} // verus!
