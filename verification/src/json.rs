//! The JSON values of `serde_json` as this library sees them.
//!
//! A request context and an evaluation result are both `serde_json` maps.
//! Verus cannot look inside them, so their contents are named by the two
//! uninterpreted functions below, and every access goes through one of the
//! small trusted functions of this module.

use vstd::prelude::*;
use serde_json::Value;

verus! {

/// `serde_json::Map`, opaque to the verifier.
#[verifier::external_type_specification]
#[verifier::external_body]
#[verifier::reject_recursive_types(K)]
#[verifier::reject_recursive_types(V)]
pub struct ExJsonMap<K, V>(serde_json::Map<K, V>);

/// `serde_json::Value`, opaque to the verifier.
#[verifier::external_type_specification]
#[verifier::external_body]
pub struct ExJsonValue(serde_json::Value);

/// What a JSON value holds, as far as flag evaluation tells values apart:
/// numbers and objects are both `Other`.
pub enum JsonModel {
    Null,
    Bool(bool),
    Text(Seq<char>),
    List(Seq<JsonModel>),
    Other,
}

/// The entries of a JSON map: each key with what its value holds.
pub uninterp spec fn json_entries(m: serde_json::Map<String, Value>) -> Map<Seq<char>, JsonModel>;

/// What a JSON value holds.
pub uninterp spec fn json_shape(v: Value) -> JsonModel;

/// The shapes of a sequence of JSON values, element by element.
pub open spec fn json_shapes(values: Seq<Value>) -> Seq<JsonModel> {
    values.map_values(|v: Value| json_shape(v))
}

/// Trusted: `serde_json::Map::new` makes a map without entries.
#[verifier::external_body]
pub(crate) fn json_map_new() -> (m: serde_json::Map<String, Value>)
    ensures
        json_entries(m) =~= Map::empty(),
{
    serde_json::Map::new()
}

/// Trusted: `serde_json::Map::insert` with a `Value::Bool` sets the entry of
/// `key` to that boolean, replacing an earlier entry of the same key, and
/// leaves every other entry as it was.
#[verifier::external_body]
pub(crate) fn json_map_insert_bool(m: &mut serde_json::Map<String, Value>, key: String, state: bool)
    ensures
        json_entries(*final(m)) == json_entries(*old(m)).insert(key@, JsonModel::Bool(state)),
{
    m.insert(key, Value::Bool(state));
}

/// Trusted: `serde_json::Map::contains_key` tells whether the map has an
/// entry for `key`.
#[verifier::external_body]
pub(crate) fn json_map_contains_key(m: &serde_json::Map<String, Value>, key: &str) -> (r: bool)
    ensures
        r == json_entries(*m).dom().contains(key@),
{
    m.contains_key(key)
}

/// Trusted: `serde_json::Map::get` returns the value stored under `key`, or
/// `None` where the map has no such entry.
#[verifier::external_body]
pub(crate) fn json_map_get<'a>(m: &'a serde_json::Map<String, Value>, key: &str) -> (r: Option<&'a Value>)
    ensures
        r is Some <==> json_entries(*m).dom().contains(key@),
        r matches Some(v) ==> json_shape(*v) == json_entries(*m)[key@],
{
    m.get(key)
}

/// Trusted: `serde_json::Value::as_str` returns the text of a JSON string and
/// `None` for every other value.
#[verifier::external_body]
pub(crate) fn json_as_str<'a>(v: &'a Value) -> (r: Option<&'a str>)
    ensures
        match r {
            Some(s) => json_shape(*v) == JsonModel::Text(s@),
            None => !(json_shape(*v) is Text),
        },
{
    v.as_str()
}

/// Trusted: `serde_json::Value::as_array` returns the elements of a JSON
/// array, in order, and `None` for every other value.
#[verifier::external_body]
pub(crate) fn json_as_array<'a>(v: &'a Value) -> (r: Option<&'a Vec<Value>>)
    ensures
        match r {
            Some(items) => json_shape(*v) == JsonModel::List(json_shapes(items@)),
            None => !(json_shape(*v) is List),
        },
{
    v.as_array()
}

/// Trusted: `serde_json::Value::is_null` tells whether the value is JSON
/// `null`.
#[verifier::external_body]
pub(crate) fn json_is_null(v: &Value) -> (r: bool)
    ensures
        r == (json_shape(*v) is Null),
{
    v.is_null()
}

} // verus!
