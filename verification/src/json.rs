//! JSON documents: what they hold, and the `serde_json` calls that build, read and write them.

use serde_json::Value;
use vstd::prelude::*;

verus! {

/// What a JSON document holds.
pub enum Json {
    Null,
    Bool(bool),
    /// A whole number that is not negative.
    Unsigned(u64),
    /// A whole number below zero.
    Negative(i64),
    /// Any other number, by the bits of its double-precision encoding.
    Double(u64),
    Text(Seq<char>),
    Array(Seq<Json>),
    Object(Map<Seq<char>, Json>),
}

impl Json {
    /// The member of an object under `key`; `Null` if there is none, or no object.
    pub open spec fn member(self, key: Seq<char>) -> Json {
        match self {
            Json::Object(members) => if members.contains_key(key) {
                members[key]
            } else {
                Json::Null
            },
            _ => Json::Null,
        }
    }

    /// The item of an array at `index`; `Null` if there is none, or no array.
    pub open spec fn item(self, index: int) -> Json {
        match self {
            Json::Array(items) => if 0 <= index < items.len() {
                items[index]
            } else {
                Json::Null
            },
            _ => Json::Null,
        }
    }
}

/// A JSON document as `serde_json` holds it.
#[verifier::external_type_specification]
#[verifier::external_body]
pub struct ExValue(Value);

/// The members of a JSON object as `serde_json` holds them.
#[verifier::external_type_specification]
#[verifier::external_body]
#[verifier::reject_recursive_types(K)]
#[verifier::reject_recursive_types(V)]
pub struct ExMembers<K, V>(serde_json::Map<K, V>);

/// What a `serde_json::Value` holds.
pub uninterp spec fn json_of(value: Value) -> Json;

/// What a `serde_json::Map` holds: its keys, each with what its value holds.
pub uninterp spec fn members_of(members: serde_json::Map<String, Value>) -> Map<Seq<char>, Json>;

/// The compact text that `serde_json` writes for a document.
pub uninterp spec fn json_text(json: Json) -> Seq<char>;

/// The document that `serde_json` reads from a text; `None` if the text is not JSON.
pub uninterp spec fn json_parsed(text: Seq<char>) -> Option<Json>;

/// What each of several documents holds.
pub open spec fn jsons_of(values: Seq<Value>) -> Seq<Json> {
    values.map_values(|value: Value| json_of(value))
}

/// `serde_json::Map::new`: no members.
pub assume_specification[ serde_json::Map::<String, Value>::new ]() -> (members: serde_json::Map<
    String,
    Value,
>)
    ensures
        (members_of(members) == Map::<Seq<char>, Json>::empty()),
;

/// `serde_json::Map::insert`: the key now has the given value, the other members are as before;
/// the value that the key had is handed back.
pub assume_specification[ serde_json::Map::<String, Value>::insert ](
    members: &mut serde_json::Map<String, Value>,
    k: String,
    v: Value,
) -> (previous: Option<Value>)
    ensures
        members_of(*final(members)) == members_of(*old(members)).insert(k@, json_of(v)),
        previous is Some == members_of(*old(members)).contains_key(k@),
        previous is Some ==> json_of(previous->0) == members_of(*old(members))[k@],
;

/// `serde_json::Value::is_null`: whether the document is `null`.
pub assume_specification[ Value::is_null ](value: &Value) -> (null: bool)
    ensures
        null == (json_of(*value) is Null),
;

/// `serde_json::Value::as_str`: the text of a string, nothing of any other document.
pub assume_specification<'a>[ Value::as_str ](value: &'a Value) -> (text: Option<&'a str>)
    ensures
        text is Some == json_of(*value) is Text,
        text is Some ==> text->0@ == json_of(*value)->Text_0,
;

/// `serde_json::Value::as_u64`: a whole number that is not negative, nothing of any other
/// document.
pub assume_specification[ Value::as_u64 ](value: &Value) -> (number: Option<u64>)
    ensures
        number is Some == json_of(*value) is Unsigned,
        number is Some ==> number->0 == json_of(*value)->Unsigned_0,
;

/// `Clone` of `serde_json::Value`: a document that holds the same.
pub assume_specification[ <Value as Clone>::clone ](value: &Value) -> (copy: Value)
    ensures
        json_of(copy) == json_of(*value),
;

/// `From<Map<String, Value>>` of `serde_json::Value`: the object with these members.
#[verifier::external_body]
pub(crate) fn object_value(members: serde_json::Map<String, Value>) -> (value: Value)
    ensures
        json_of(value) == Json::Object(members_of(members)),
{
    Value::from(members)
}

/// `From<Vec<Value>>` of `serde_json::Value`: the array of these items, in their order.
#[verifier::external_body]
pub(crate) fn array_value(items: Vec<Value>) -> (value: Value)
    ensures
        json_of(value) == Json::Array(jsons_of(items@)),
{
    Value::from(items)
}

/// `From<&str>` of `serde_json::Value`: the string.
#[verifier::external_body]
pub(crate) fn text_value(text: &str) -> (value: Value)
    ensures
        json_of(value) == Json::Text(text@),
{
    Value::from(text)
}

/// `From<bool>` of `serde_json::Value`: `true` or `false`.
#[verifier::external_body]
pub(crate) fn bool_value(flag: bool) -> (value: Value)
    ensures
        json_of(value) == Json::Bool(flag),
{
    Value::from(flag)
}

/// `From<u64>` of `serde_json::Value`: the whole number.
#[verifier::external_body]
pub(crate) fn number_value(number: u64) -> (value: Value)
    ensures
        json_of(value) == Json::Unsigned(number),
{
    Value::from(number)
}

/// Indexing a `serde_json::Value` by a key: the member of an object under that key, and `null`
/// where there is none.
#[verifier::external_body]
pub(crate) fn member<'a>(value: &'a Value, key: &str) -> (found: &'a Value)
    ensures
        json_of(*found) == json_of(*value).member(key@),
{
    &value[key]
}

/// `Display` of `serde_json::Value`: the compact text of the document, which depends on nothing
/// but what the document holds.
#[verifier::external_body]
pub(crate) fn value_text(value: &Value) -> (text: String)
    ensures
        text@ == json_text(json_of(*value)),
{
    value.to_string()
}

/// `serde_json::from_str`: the document that a text holds, which depends on nothing but the text.
/// The error for a text that is not JSON is dropped.
#[verifier::external_body]
pub(crate) fn parse_value(text: &str) -> (value: Option<Value>)
    ensures
        value is Some == json_parsed(text@) is Some,
        value is Some ==> json_of(value->0) == json_parsed(text@)->0,
{
    serde_json::from_str(text).ok()
}

/// A member of an object is what the object holds under the key, and an item of an array what it
/// holds at the index; where there is none, it is `Null`.
pub proof fn members_and_items_are_looked_up(
    members: Map<Seq<char>, Json>,
    key: Seq<char>,
    items: Seq<Json>,
    index: int,
    other: Json,
)
    ensures
        members.contains_key(key) ==> Json::Object(members).member(key) == members[key],
        !members.contains_key(key) ==> Json::Object(members).member(key) is Null,
        other !is Object ==> other.member(key) is Null,
        0 <= index < items.len() ==> Json::Array(items).item(index) == items[index],
        !(0 <= index < items.len()) ==> Json::Array(items).item(index) is Null,
        other !is Array ==> other.item(index) is Null,
{
}

/// Several documents hold what each of them holds, in order.
pub proof fn documents_keep_their_order(values: Seq<Value>)
    ensures
        jsons_of(values).len() == values.len(),
        forall|i: int|
            0 <= i < values.len() ==> #[trigger] jsons_of(values)[i] == json_of(values[i]),
{
}

}
