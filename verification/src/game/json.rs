//! JSON values, built with `serde_json`.
//!
//! Verus does not look into `serde_json`. What this library needs of it is
//! declared here and believed as stated: that each constructor builds the
//! value that its name says. Everything else about the documents that the
//! library produces is proved from that.

use vstd::prelude::*;

verus! {

/// What a JSON value is.
pub enum JsonModel {
    Null,
    Bool(bool),
    /// A whole number. The library writes no other.
    Number(int),
    String(Seq<char>),
    Array(Seq<JsonModel>),
    Object(Map<Seq<char>, JsonModel>),
}

/// `serde_json::Value`, a JSON value. Nothing is known of it but through [`json_model`].
#[verifier::external_type_specification]
#[verifier::external_body]
pub struct ExValue(serde_json::Value);

/// `serde_json::Map`, the entries of a JSON object. Nothing is known of it
/// but through [`json_entries`].
#[verifier::external_type_specification]
#[verifier::external_body]
#[verifier::reject_recursive_types(K)]
#[verifier::reject_recursive_types(V)]
pub struct ExMap<K, V>(serde_json::Map<K, V>);

/// The entries of a JSON object while it is built.
pub type JsonObject = serde_json::Map<String, serde_json::Value>;

/// The JSON value that a `serde_json::Value` holds.
pub uninterp spec fn json_model(value: serde_json::Value) -> JsonModel;

/// The entries that a `serde_json::Map` holds, by key.
pub uninterp spec fn json_entries(object: JsonObject) -> Map<Seq<char>, JsonModel>;

/// An object without entries.
pub open spec fn no_entries() -> Map<Seq<char>, JsonModel> {
    Map::empty()
}

/// The values that `items` hold, in order.
pub open spec fn json_models(items: Seq<serde_json::Value>) -> Seq<JsonModel> {
    items.map_values(|item: serde_json::Value| json_model(item))
}

/// `serde_json::Value::from` on a string slice: the JSON string with the same characters.
#[verifier::external_body]
pub(crate) fn json_string(text: &str) -> (value: serde_json::Value)
    ensures
        json_model(value) == JsonModel::String(text@),
{
    serde_json::Value::from(text)
}

/// `serde_json::Value::from` on a `u8`: the JSON number of the same value.
#[verifier::external_body]
pub(crate) fn json_number(n: u8) -> (value: serde_json::Value)
    ensures
        json_model(value) == JsonModel::Number(n as int),
{
    serde_json::Value::from(n)
}

/// `serde_json::Value::from` on a vector of values: the JSON array of these
/// values in the same order.
#[verifier::external_body]
pub(crate) fn json_array(items: Vec<serde_json::Value>) -> (value: serde_json::Value)
    ensures
        json_model(value) == JsonModel::Array(json_models(items@)),
{
    serde_json::Value::from(items)
}

/// `serde_json::Map::new`: no entries.
#[verifier::external_body]
pub(crate) fn json_object_new() -> (object: JsonObject)
    ensures
        json_entries(object) == no_entries(),
{
    serde_json::Map::new()
}

/// `serde_json::Map::insert`: the entry for `key` is `value` afterwards, whether
/// or not there was one before, and the other entries are as they were.
#[verifier::external_body]
pub(crate) fn json_object_insert(object: &mut JsonObject, key: &str, value: serde_json::Value)
    ensures
        json_entries(*final(object)) == json_entries(*old(object)).insert(key@, json_model(value)),
{
    object.insert(key.to_owned(), value);
}

/// `serde_json::Value::from` on a map: the JSON object with the entries of the map.
#[verifier::external_body]
pub(crate) fn json_object(object: JsonObject) -> (value: serde_json::Value)
    ensures
        json_model(value) == JsonModel::Object(json_entries(object)),
{
    serde_json::Value::from(object)
}

} // verus!
