//! The JSON documents of the stdio line protocol, read and written with
//! `serde_json`. A document stays opaque here: what each read gives back is
//! named, and the library's logic works on those names.

use vstd::prelude::*;

verus! {

/// A parsed JSON document.
#[verifier::external_type_specification]
#[verifier::external_body]
pub struct ExJsonValue(serde_json::Value);

/// The document that `serde_json::from_slice` reads from these bytes, if
/// they hold one.
pub uninterp spec fn json_parse(bytes: Seq<u8>) -> Option<serde_json::Value>;

/// The document that `serde_json::from_str` reads from this text, if it
/// holds one.
pub uninterp spec fn json_parse_text(text: Seq<char>) -> Option<serde_json::Value>;

/// The value that `Value::pointer` finds at a JSON pointer.
pub uninterp spec fn json_at(v: serde_json::Value, pointer: Seq<char>) -> Option<serde_json::Value>;

/// The text of a JSON string value (`Value::as_str`).
pub uninterp spec fn json_str(v: serde_json::Value) -> Option<Seq<char>>;

/// The elements of a JSON array value (`Value::as_array`).
pub uninterp spec fn json_items(v: serde_json::Value) -> Option<Seq<serde_json::Value>>;

/// The compact JSON text of a value (`Display` of `Value`).
pub uninterp spec fn json_text(v: serde_json::Value) -> Seq<char>;

/// The UTF-8 bytes of the compact JSON text of a value.
pub uninterp spec fn json_bytes(v: serde_json::Value) -> Seq<u8>;

/// The value after `Map::remove` of a key, when the value is an object.
pub uninterp spec fn json_removed(v: serde_json::Value, key: Seq<char>) -> serde_json::Value;

/// The value after `Map::insert` of a member, when the value is an object.
pub uninterp spec fn json_inserted(v: serde_json::Value, key: Seq<char>, member: serde_json::Value) -> serde_json::Value;

/// The array value holding these elements (`Value::Array`).
pub uninterp spec fn json_array(items: Seq<serde_json::Value>) -> serde_json::Value;

/// Parses a document from bytes (`serde_json::from_slice`); None when the
/// bytes are not one JSON document.
#[verifier::external_body]
pub(crate) fn parse_json(bytes: &Vec<u8>) -> (r: Option<serde_json::Value>)
    ensures
        r == json_parse(bytes@),
{
    serde_json::from_slice::<serde_json::Value>(bytes).ok()
}

/// Parses a document from text (`serde_json::from_str`).
#[verifier::external_body]
pub(crate) fn parse_json_text(text: &str) -> (r: Option<serde_json::Value>)
    ensures
        r == json_parse_text(text@),
{
    serde_json::from_str::<serde_json::Value>(text).ok()
}

/// A copy of the value at a JSON pointer (`Value::pointer`).
#[verifier::external_body]
pub(crate) fn value_at(v: &serde_json::Value, pointer: &str) -> (r: Option<serde_json::Value>)
    ensures
        r == json_at(*v, pointer@),
{
    v.pointer(pointer).cloned()
}

/// The text of a string value (`Value::as_str`).
#[verifier::external_body]
pub(crate) fn value_str(v: &serde_json::Value) -> (r: Option<String>)
    ensures
        match r {
            Some(s) => json_str(*v) == Some(s@),
            None => json_str(*v) is None,
        },
{
    v.as_str().map(|s| s.to_owned())
}

/// A copy of the elements of an array value (`Value::as_array`).
#[verifier::external_body]
pub(crate) fn value_items(v: &serde_json::Value) -> (r: Option<Vec<serde_json::Value>>)
    ensures
        match r {
            Some(a) => json_items(*v) == Some(a@),
            None => json_items(*v) is None,
        },
{
    v.as_array().cloned()
}

/// The compact JSON text of a value (`Value::to_string`).
#[verifier::external_body]
pub(crate) fn value_text(v: &serde_json::Value) -> (r: String)
    ensures
        r@ == json_text(*v),
{
    v.to_string()
}

/// The compact JSON text of a value, as bytes.
#[verifier::external_body]
pub(crate) fn value_bytes(v: &serde_json::Value) -> (r: Vec<u8>)
    ensures
        r@ == json_bytes(*v),
{
    v.to_string().into_bytes()
}

/// Removes a member from an object value (`Map::remove`); other values
/// stay as they are.
#[verifier::external_body]
pub(crate) fn remove_member(v: &mut serde_json::Value, key: &str)
    ensures
        *final(v) == json_removed(*old(v), key@),
{
    if let Some(m) = v.as_object_mut() {
        m.remove(key);
    }
}

/// Sets a member of an object value (`Map::insert`); other values stay as
/// they are.
#[verifier::external_body]
pub(crate) fn insert_member(v: &mut serde_json::Value, key: &str, member: serde_json::Value)
    ensures
        *final(v) == json_inserted(*old(v), key@, member),
{
    if let Some(m) = v.as_object_mut() {
        m.insert(key.to_owned(), member);
    }
}

/// The array value of these elements (`Value::Array`).
#[verifier::external_body]
pub(crate) fn array_value(items: Vec<serde_json::Value>) -> (r: serde_json::Value)
    ensures
        r == json_array(items@),
{
    serde_json::Value::Array(items)
}

} // verus!
