//! Reading JSON documents with `serde_json`.
//!
//! A `serde_json::Value` is opaque to the library. Each access the library
//! makes (parsing, a member lookup, reading a string, a boolean, an array or
//! an object's entries) is one call into `serde_json` behind a wrapper, and
//! its result is named as a function of its arguments. The library's own
//! reading of documents (error bodies, list pages) is verified over those
//! names.

use vstd::prelude::*;

use crate::types::params::opt_view;

verus! {

broadcast use vstd::string::group_string_axioms;

/// The document `serde_json::from_slice` reads from `bytes`, or `None` when
/// they are not JSON text.
pub uninterp spec fn parsed_json(bytes: Seq<u8>) -> Option<serde_json::Value>;

/// The member `key` of an object (`Value::get` with a string key); `None`
/// when `value` is not an object or has no such member.
pub uninterp spec fn json_member(value: serde_json::Value, key: Seq<char>) -> Option<
    serde_json::Value,
>;

/// The text of a JSON string (`Value::as_str`); `None` for any other value.
pub uninterp spec fn json_string(value: serde_json::Value) -> Option<Seq<char>>;

/// A JSON boolean (`Value::as_bool`); `None` for any other value.
pub uninterp spec fn json_bool(value: serde_json::Value) -> Option<bool>;

/// The items of a JSON array (`Value::as_array`), in order; `None` for any
/// other value.
pub uninterp spec fn json_array(value: serde_json::Value) -> Option<Seq<serde_json::Value>>;

/// The entries of a JSON object (`Value::as_object`), in the map's
/// iteration order; `None` for any other value.
pub uninterp spec fn json_entries(value: serde_json::Value) -> Option<
    Seq<(Seq<char>, serde_json::Value)>,
>;

/// The JSON text `serde_json::to_vec` writes for a value.
pub uninterp spec fn json_text(value: serde_json::Value) -> Seq<u8>;

/// Writes a value as JSON text with `serde_json::to_vec`: trusted to yield
/// `json_text(value)`. Writing a `Value` into a `Vec` does not fail (its map
/// keys are strings and its numbers finite), so the error arm, which keeps
/// the error's message, is never taken.
#[verifier::external_body]
pub(crate) fn to_json_bytes(value: &serde_json::Value) -> (r: Result<Vec<u8>, String>)
    ensures
        match r {
            Ok(bytes) => bytes@ == json_text(*value),
            Err(_) => false,
        },
{
    match serde_json::to_vec(value) {
        Ok(bytes) => Ok(bytes),
        Err(e) => Err(e.to_string()),
    }
}

/// Parses bytes with `serde_json::from_slice::<Value>`: trusted to yield
/// `parsed_json(bytes)`, a function of the bytes alone (`None` on the
/// parse error).
#[verifier::external_body]
pub(crate) fn parse_json(bytes: &[u8]) -> (r: Option<serde_json::Value>)
    ensures
        r == parsed_json(bytes@),
{
    serde_json::from_slice::<serde_json::Value>(bytes).ok()
}

/// Looks up a member with `Value::get` (cloning it): trusted to yield
/// `json_member(value, key)`.
#[verifier::external_body]
pub(crate) fn member(value: &serde_json::Value, key: &str) -> (r: Option<serde_json::Value>)
    ensures
        r == json_member(*value, key@),
{
    value.get(key).cloned()
}

/// Reads a string with `Value::as_str`: trusted to yield
/// `json_string(value)`.
#[verifier::external_body]
pub(crate) fn as_string(value: &serde_json::Value) -> (r: Option<String>)
    ensures
        opt_view(r) == json_string(*value),
{
    match value.as_str() {
        Some(s) => Some(s.to_string()),
        None => None,
    }
}

/// Reads a boolean with `Value::as_bool`: trusted to yield
/// `json_bool(value)`.
#[verifier::external_body]
pub(crate) fn as_bool(value: &serde_json::Value) -> (r: Option<bool>)
    ensures
        r == json_bool(*value),
{
    value.as_bool()
}

/// Reads an array's items with `Value::as_array` (cloning them): trusted to
/// yield `json_array(value)`.
#[verifier::external_body]
pub(crate) fn as_array(value: &serde_json::Value) -> (r: Option<Vec<serde_json::Value>>)
    ensures
        match r {
            Some(items) => json_array(*value) == Some(items@),
            None => json_array(*value) is None,
        },
{
    match value.as_array() {
        Some(items) => Some(items.clone()),
        None => None,
    }
}

/// The characters of each key, with its value.
pub open spec fn entry_views(entries: Seq<(String, serde_json::Value)>) -> Seq<
    (Seq<char>, serde_json::Value),
> {
    entries.map_values(|e: (String, serde_json::Value)| (e.0@, e.1))
}

/// Reads an object's entries with `Value::as_object`, walking the map in its
/// iteration order (cloning keys and values): trusted to yield
/// `json_entries(value)`.
#[verifier::external_body]
pub(crate) fn as_entries(value: &serde_json::Value) -> (r: Option<Vec<(String, serde_json::Value)>>)
    ensures
        match r {
            Some(entries) => json_entries(*value) == Some(entry_views(entries@)),
            None => json_entries(*value) is None,
        },
{
    match value.as_object() {
        Some(map) => Some(map.iter().map(|(k, v)| (k.clone(), v.clone())).collect()),
        None => None,
    }
}

/// Whether a value is an object (`Value::is_object`): trusted to agree with
/// `json_entries`, as both read `Value::Object`.
#[verifier::external_body]
pub(crate) fn is_object(value: &serde_json::Value) -> (r: bool)
    ensures
        r == json_entries(*value) is Some,
{
    value.is_object()
}

/// A fresh empty object (`serde_json::Map::new` in `Value::Object`): an
/// object with no entries.
#[verifier::external_body]
pub(crate) fn empty_object() -> (r: serde_json::Value)
    ensures
        json_entries(r) == Some(Seq::<(Seq<char>, serde_json::Value)>::empty()),
{
    serde_json::Value::Object(serde_json::Map::new())
}

/// A member of a document that may be absent.
pub open spec fn doc_member(doc: Option<serde_json::Value>, key: Seq<char>) -> Option<
    serde_json::Value,
> {
    match doc {
        Some(v) => json_member(v, key),
        None => None,
    }
}

/// The string held by a member, if the member is a string.
pub open spec fn member_string(doc: Option<serde_json::Value>, key: Seq<char>) -> Option<Seq<char>> {
    match doc_member(doc, key) {
        Some(m) => json_string(m),
        None => None,
    }
}

/// `value` is the object `bytes` hold when they hold one, and an empty
/// object otherwise.
pub open spec fn object_or_empty(bytes: Seq<u8>, value: serde_json::Value) -> bool {
    match parsed_json(bytes) {
        Some(v) if json_entries(v) is Some => value == v,
        _ => json_entries(value) == Some(Seq::<(Seq<char>, serde_json::Value)>::empty()),
    }
}

/// The member `key` of a document that may be absent.
pub fn doc_member_of(doc: &Option<serde_json::Value>, key: &str) -> (r: Option<serde_json::Value>)
    ensures
        r == doc_member(*doc, key@),
{
    match doc {
        Some(v) => member(v, key),
        None => None,
    }
}

/// The string a member holds, if it is a string.
pub fn member_string_of(doc: &Option<serde_json::Value>, key: &str) -> (r: Option<String>)
    ensures
        opt_view(r) == member_string(*doc, key@),
{
    match doc_member_of(doc, key) {
        Some(m) => as_string(&m),
        None => None,
    }
}

/// The bytes of an optional request body: none without a body, else the
/// body's JSON text.
pub fn encode_body(body: Option<serde_json::Value>) -> (r: Result<Option<Vec<u8>>, String>)
    ensures
        body is None ==> r == Ok::<Option<Vec<u8>>, String>(None),
        body matches Some(v) ==> (r matches Ok(Some(bytes)) && bytes@ == json_text(v)),
{
    match body {
        None => Ok(None),
        Some(value) => match to_json_bytes(&value) {
            Ok(bytes) => Ok(Some(bytes)),
            Err(message) => Err(message),
        },
    }
}

/// The JSON object that `bytes` hold, or an empty object when they hold
/// anything else (or no JSON at all).
pub fn json_object_or_empty(bytes: &[u8]) -> (r: serde_json::Value)
    ensures
        object_or_empty(bytes@, r),
{
    match parse_json(bytes) {
        Some(value) => if is_object(&value) {
            value
        } else {
            empty_object()
        },
        None => empty_object(),
    }
}

} // verus!
