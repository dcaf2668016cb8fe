//! The JSON documents that resources arrive as, and what is assumed of the
//! `serde_json` and `serde_yaml` calls that read, change, build and print
//! them.

use vstd::prelude::*;
use serde_json::Value;

verus! {

/// `serde_json::Value`, known only through [`json_of`].
#[verifier::external_type_specification]
#[verifier::external_body]
pub struct ExValue(Value);

/// `serde_json::Map`, known only through [`entries_of`].
#[verifier::external_type_specification]
#[verifier::external_body]
#[verifier::reject_recursive_types(K)]
#[verifier::reject_recursive_types(V)]
pub struct ExJsonMap<K, V>(serde_json::Map<K, V>);

/// `serde_json::Error`, of which only the message is read.
#[verifier::external_type_specification]
#[verifier::external_body]
pub struct ExJsonError(serde_json::Error);

/// `serde_yaml::Error`, of which only the message is read.
#[verifier::external_type_specification]
#[verifier::external_body]
pub struct ExYamlError(serde_yaml::Error);

/// A JSON number as `serde_json::Number` holds it: a non-negative integer,
/// a negative integer, or a finite float, given by its bits.
pub enum JsonNumber {
    PosInt(u64),
    NegInt(i64),
    Float(u64),
}

/// A JSON document as a mathematical value. An object maps each of its keys
/// to one document; its keys have no order of their own, as `serde_json`
/// keeps them sorted.
pub enum Json {
    Null,
    Bool(bool),
    Number(JsonNumber),
    String(Seq<char>),
    Array(Seq<Json>),
    Object(Map<Seq<char>, Json>),
}

/// The document that a `serde_json::Value` holds.
pub uninterp spec fn json_of(v: Value) -> Json;

/// The entries that a `serde_json::Map` holds, by key.
pub uninterp spec fn entries_of(m: serde_json::Map<String, Value>) -> Map<Seq<char>, Json>;

/// The entries of an object without fields.
pub open spec fn no_entries() -> Map<Seq<char>, Json> {
    Map::empty()
}

/// The documents that a sequence of values holds, in the same order.
pub open spec fn documents(values: Seq<Value>) -> Seq<Json> {
    values.map_values(|v: Value| json_of(v))
}

/// The field `key` of an object; `None` for a document that is no object or
/// has no such field.
pub open spec fn field(doc: Json, key: Seq<char>) -> Option<Json> {
    match doc {
        Json::Object(fields) => if fields.contains_key(key) {
            Some(fields[key])
        } else {
            None
        },
        _ => None,
    }
}

/// The text of a string document; `None` for every other document.
pub open spec fn text_of(doc: Json) -> Option<Seq<char>> {
    match doc {
        Json::String(s) => Some(s),
        _ => None,
    }
}

/// `Value::as_object_mut`: the map of an object, borrowed for change; `None`
/// for every other variant, which is then left as it was.
pub assume_specification[ Value::as_object_mut ](v: &mut Value) -> (r: Option<&mut serde_json::Map<String, Value>>)
    ensures
        match json_of(*old(v)) {
            Json::Object(fields) => r.is_some() && entries_of(*r.unwrap()) == fields && json_of(
                *final(v),
            ) == Json::Object(entries_of(*final(r.unwrap()))),
            _ => r.is_none() && json_of(*final(v)) == json_of(*old(v)),
        },
;

/// `Value::as_str`: the text of a string value; `None` for every other
/// variant.
pub assume_specification[ Value::as_str ](v: &Value) -> (r: Option<&str>)
    ensures
        match r {
            Some(s) => text_of(json_of(*v)) == Some(s@),
            None => text_of(json_of(*v)) is None,
        },
;

/// `Value::clone`: a value that holds the same document.
pub assume_specification[ <Value as Clone>::clone ](v: &Value) -> (r: Value)
    ensures
        json_of(r) == json_of(*v),
;

/// `Value::get` with a string index: the field `key` of an object; `None` for
/// a value that is no object or has no such field.
#[verifier::external_body]
pub(crate) fn value_get<'a>(v: &'a Value, key: &str) -> (r: Option<&'a Value>)
    ensures
        match r {
            Some(found) => field(json_of(*v), key@) == Some(json_of(*found)),
            None => field(json_of(*v), key@) is None,
        },
{
    v.get(key)
}

/// `Map::get_mut` with a string key: the value under `key`, borrowed for
/// change; `None` where the map has no such key, and the map is then left as
/// it was.
#[verifier::external_body]
pub(crate) fn map_get_mut<'a>(m: &'a mut serde_json::Map<String, Value>, key: &str) -> (r: Option<&'a mut Value>)
    ensures
        entries_of(*old(m)).contains_key(key@) ==> r.is_some() && json_of(*r.unwrap())
            == entries_of(*old(m))[key@] && entries_of(*final(m)) == entries_of(*old(m)).insert(
            key@,
            json_of(*final(r.unwrap())),
        ),
        !entries_of(*old(m)).contains_key(key@) ==> r.is_none() && entries_of(*final(m))
            == entries_of(*old(m)),
{
    m.get_mut(key)
}

/// `Map::remove` with a string key: the entry under `key` leaves the map, and
/// its value is returned; every other entry stays.
#[verifier::external_body]
pub(crate) fn map_remove(m: &mut serde_json::Map<String, Value>, key: &str) -> (r: Option<Value>)
    ensures
        entries_of(*final(m)) == entries_of(*old(m)).remove(key@),
        match r {
            Some(v) => entries_of(*old(m)).contains_key(key@) && json_of(v) == entries_of(
                *old(m),
            )[key@],
            None => !entries_of(*old(m)).contains_key(key@),
        },
{
    m.remove(key)
}

/// `Map::new`: a map without entries.
#[verifier::external_body]
pub(crate) fn new_map() -> (m: serde_json::Map<String, Value>)
    ensures
        entries_of(m) == no_entries(),
{
    serde_json::Map::new()
}

/// `Map::insert`: the entry under `k` is now `v`, whatever stood there
/// before, and that earlier value is returned.
#[verifier::external_body]
pub(crate) fn map_insert(m: &mut serde_json::Map<String, Value>, k: String, v: Value) -> (r: Option<Value>)
    ensures
        entries_of(*final(m)) == entries_of(*old(m)).insert(k@, json_of(v)),
        match r {
            Some(previous) => entries_of(*old(m)).contains_key(k@) && json_of(previous)
                == entries_of(*old(m))[k@],
            None => !entries_of(*old(m)).contains_key(k@),
        },
{
    m.insert(k, v)
}

/// `Value::Object`: the object with the entries of `m`.
#[verifier::external_body]
pub(crate) fn json_object(m: serde_json::Map<String, Value>) -> (v: Value)
    ensures
        json_of(v) == Json::Object(entries_of(m)),
{
    Value::Object(m)
}

/// `Value::Array`: the array of the documents of `items`, in their order.
#[verifier::external_body]
pub(crate) fn json_array(items: Vec<Value>) -> (v: Value)
    ensures
        json_of(v) == Json::Array(documents(items@)),
{
    Value::Array(items)
}

/// `Value::String`: the string document with the text of `s`.
#[verifier::external_body]
pub(crate) fn json_string(s: String) -> (v: Value)
    ensures
        json_of(v) == Json::String(s@),
{
    Value::String(s)
}

/// `Value::Bool`: the boolean document `b`.
#[verifier::external_body]
pub(crate) fn json_bool(b: bool) -> (v: Value)
    ensures
        json_of(v) == Json::Bool(b),
{
    Value::Bool(b)
}

/// `Value::from` on a `usize`: the number document of that non-negative
/// integer.
#[verifier::external_body]
pub(crate) fn json_count(n: usize) -> (v: Value)
    ensures
        json_of(v) == Json::Number(JsonNumber::PosInt(n as u64)),
{
    Value::from(n)
}

/// What `serde_json::to_string_pretty` prints for a document, or `None` where
/// it reports an error.
pub uninterp spec fn pretty_text(doc: Json) -> Option<Seq<char>>;

/// `serde_json::to_string_pretty` on a value: indented JSON text, a function
/// of the document alone, named and not spelled out.
#[verifier::external_body]
pub(crate) fn to_string_pretty(v: &Value) -> (r: Result<String, serde_json::Error>)
    ensures
        match r {
            Ok(s) => pretty_text(json_of(*v)) == Some(s@),
            Err(_) => pretty_text(json_of(*v)) is None,
        },
{
    serde_json::to_string_pretty(v)
}

/// What `serde_yaml::to_string` prints for a document, or `None` where it
/// reports an error.
pub uninterp spec fn yaml_text(doc: Json) -> Option<Seq<char>>;

/// `serde_yaml::to_string` on a value: YAML text, a function of the document
/// alone, named and not spelled out.
#[verifier::external_body]
pub(crate) fn to_yaml_string(v: &Value) -> (r: Result<String, serde_yaml::Error>)
    ensures
        match r {
            Ok(s) => yaml_text(json_of(*v)) == Some(s@),
            Err(_) => yaml_text(json_of(*v)) is None,
        },
{
    serde_yaml::to_string(v)
}

/// The message of a `serde_json::Error`, as its `Display` prints it.
#[verifier::external_body]
pub(crate) fn json_error_message(error: &serde_json::Error) -> String {
    error.to_string()
}

/// The message of a `serde_yaml::Error`, as its `Display` prints it.
#[verifier::external_body]
pub(crate) fn yaml_error_message(error: &serde_yaml::Error) -> String {
    error.to_string()
}

} // verus!
