//! JSON documents, as `serde_json` builds them.

use vstd::prelude::*;

verus! {

/// A JSON document of `serde_json`.
#[verifier::external_type_specification]
#[verifier::external_body]
pub struct ExValue(serde_json::Value);

/// What a JSON document holds. Nulls, booleans and numbers that are no unsigned
/// integers are not told apart.
pub enum Json {
    Text(Seq<char>),
    Number(nat),
    List(Seq<Json>),
    Object(Map<Seq<char>, Json>),
    Other,
}

/// The contents of a `serde_json::Value`.
pub uninterp spec fn json_content(value: serde_json::Value) -> Json;

/// The contents of several documents.
pub open spec fn json_contents(values: Seq<serde_json::Value>) -> Seq<Json> {
    values.map_values(|value: serde_json::Value| json_content(value))
}

/// `serde_json::Value::String`: a document that holds one text.
#[verifier::external_body]
pub(crate) fn json_text(text: &str) -> (value: serde_json::Value)
    ensures
        json_content(value) == Json::Text(text@),
{
    serde_json::Value::String(text.to_string())
}

/// `serde_json::Value::from` on an unsigned integer: a document that holds that number.
#[verifier::external_body]
pub(crate) fn json_number(number: u64) -> (value: serde_json::Value)
    ensures
        json_content(value) == Json::Number(number as nat),
{
    serde_json::Value::from(number)
}

/// `serde_json::Value::Array`: a document that holds the given ones in their order.
#[verifier::external_body]
pub(crate) fn json_list(items: Vec<serde_json::Value>) -> (value: serde_json::Value)
    ensures
        json_content(value) == Json::List(json_contents(items@)),
{
    serde_json::Value::Array(items)
}

/// `serde_json::Value::Object` on a new `serde_json::Map`: an object without members.
#[verifier::external_body]
pub(crate) fn json_object() -> (value: serde_json::Value)
    ensures
        json_content(value) == Json::Object(Map::empty()),
{
    serde_json::Value::Object(serde_json::Map::new())
}

/// `IndexMut` of `serde_json::Value` with a text: the member of that name becomes
/// `item`, whether or not the object had one, and its other members stay. On a
/// value that is no object the call can panic.
#[verifier::external_body]
pub(crate) fn json_set(object: &mut serde_json::Value, name: &str, item: serde_json::Value)
    requires
        json_content(*old(object)) is Object,
    ensures
        json_content(*final(object)) == Json::Object(
            json_content(*old(object))->Object_0.insert(name@, json_content(item)),
        ),
{
    object[name] = item;
}

/// A list that holds one text.
pub(crate) fn json_single(text: &str) -> (value: serde_json::Value)
    ensures
        json_content(value) == Json::List(seq![Json::Text(text@)]),
{
    let mut items: Vec<serde_json::Value> = Vec::new();
    items.push(json_text(text));
    assert(json_contents(items@) =~= seq![Json::Text(text@)]);
    json_list(items)
}

} // verus!
