use vstd::prelude::*;

verus! {

/// The JSON document of a custom source, carried through as it came.
#[verifier::external_type_specification]
#[verifier::external_body]
pub struct ExJsonValue(serde_json::Value);

/// A JSON object of serde_json, carried through as it came.
#[verifier::external_type_specification]
#[verifier::external_body]
#[verifier::reject_recursive_types(K)]
#[verifier::reject_recursive_types(V)]
pub struct ExJsonMap<K, V>(serde_json::Map<K, V>);

/// What a key of a JSON object holds, as far as this library reads it: a text, an
/// integer, an array of texts, or anything else.
pub enum JsonEntry<S, L> {
    Text(S),
    Number(i64),
    Texts(L),
    Other,
}

/// What a JSON object holds, in the terms of `JsonEntry`: each key with its value.
pub type JsonEntries = Map<Seq<char>, JsonEntry<Seq<char>, Seq<Seq<char>>>>;

/// The keys of a JSON object of serde_json, with what each holds.
pub uninterp spec fn json_object_entries(m: serde_json::Map<String, serde_json::Value>) -> Map<Seq<char>, JsonEntry<Seq<char>, Seq<Seq<char>>>>;

/// `serde_json::Map::new()`. Trusted to be an object without keys.
#[verifier::external_body]
pub(crate) fn empty_object() -> (r: serde_json::Map<String, serde_json::Value>)
    ensures
        json_object_entries(r) == JsonEntries::empty(),
{
    serde_json::Map::new()
}

/// `Map::insert` of a JSON text under a key. Trusted: the key then holds that text,
/// and every other key holds what it held.
#[verifier::external_body]
pub(crate) fn insert_text(m: &mut serde_json::Map<String, serde_json::Value>, key: &str, v: String)
    ensures
        json_object_entries(*final(m)) == json_object_entries(*old(m)).insert(key@, JsonEntry::Text(v@)),
{
    m.insert(String::from(key), serde_json::Value::String(v));
}

/// `Map::insert` of a JSON number, made from an `i32`, under a key. Trusted: the key
/// then holds that integer, and every other key holds what it held.
#[verifier::external_body]
pub(crate) fn insert_number(m: &mut serde_json::Map<String, serde_json::Value>, key: &str, v: i32)
    ensures
        json_object_entries(*final(m)) == json_object_entries(*old(m)).insert(key@, JsonEntry::Number(v as i64)),
{
    m.insert(String::from(key), serde_json::Value::Number(v.into()));
}

/// `Map::insert` of a JSON array of texts, one per given text in order, under a key.
/// Trusted: the key then holds those texts, and every other key holds what it held.
#[verifier::external_body]
pub(crate) fn insert_texts(m: &mut serde_json::Map<String, serde_json::Value>, key: &str, v: Vec<String>)
    ensures
        json_object_entries(*final(m)) == json_object_entries(*old(m)).insert(
            key@,
            JsonEntry::Texts(v@.map_values(|t: String| t@)),
        ),
{
    let texts: Vec<serde_json::Value> = v.into_iter().map(serde_json::Value::String).collect();
    m.insert(String::from(key), serde_json::Value::Array(texts));
}

/// One entry of a JSON array, as far as this library reads it: a text, an object, or
/// anything else.
pub enum JsonItem {
    Text(String),
    Object(serde_json::Map<String, serde_json::Value>),
    Other,
}

/// The entries of a JSON value that is an array, in order (see `JsonItem`); none where
/// the value is no array.
pub uninterp spec fn json_array_items(v: serde_json::Value) -> Option<Seq<JsonItem>>;

/// The entries of a JSON array (see `JsonItem`), each told apart by its kind and
/// copied. Trusted to give what `json_array_items` names.
#[verifier::external_body]
pub(crate) fn array_items(v: &serde_json::Value) -> (r: Option<Vec<JsonItem>>)
    ensures
        match r {
            Some(items) => json_array_items(*v) == Some(items@),
            None => json_array_items(*v) is None,
        },
{
    match v {
        serde_json::Value::Array(a) => Some(a.iter().map(|e| match e {
            serde_json::Value::String(s) => JsonItem::Text(s.clone()),
            serde_json::Value::Object(o) => JsonItem::Object(o.clone()),
            _ => JsonItem::Other,
        }).collect()),
        _ => None,
    }
}

/// The text that a JSON object holds under `key`, if it holds a text there.
pub open spec fn text_at(entries: JsonEntries, key: Seq<char>) -> Option<Seq<char>> {
    if entries.dom().contains(key) && entries[key] is Text {
        Some(entries[key]->Text_0)
    } else {
        None
    }
}

/// `Map::remove` of a key, what it held read as a text. Trusted: the key is gone, every
/// other key holds what it held, and the text comes back where the key held one.
#[verifier::external_body]
pub(crate) fn take_text(m: &mut serde_json::Map<String, serde_json::Value>, key: &str) -> (r: Option<String>)
    ensures
        json_object_entries(*final(m)) == json_object_entries(*old(m)).remove(key@),
        match r {
            Some(t) => text_at(json_object_entries(*old(m)), key@) == Some(t@),
            None => text_at(json_object_entries(*old(m)), key@) is None,
        },
{
    match m.remove(key) {
        Some(serde_json::Value::String(s)) => Some(s),
        _ => None,
    }
}

/// `Clone` of serde_json's `Value` (derived there): the copy is the same JSON value.
pub assume_specification[ <serde_json::Value as Clone>::clone ](v: &serde_json::Value) -> (r: serde_json::Value)
    ensures
        r == *v,
;

} // verus!
