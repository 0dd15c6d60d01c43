//! JSON values as `serde_json` holds them, and what the rest of the crate may
//! rely on when it builds and reads them.
//!
//! A `serde_json::Value` is opaque to the verifier. Its content is named by
//! [`json_of`], a mathematical tree of type [`Json`]; the content of a
//! `serde_json::Map` is named by [`members_of`]. The functions of this file
//! that the crate keeps to itself are single calls into `serde_json` whose
//! contracts are taken on trust; the public ones are proved from them.

use vstd::prelude::*;
use crate::fields::{map_of, StringMap};

verus! {

/// The content of a JSON number.
pub enum JsonNumber {
    /// A non-negative integer.
    Unsigned(u64),
    /// An integer below zero.
    Negative(i64),
    /// Any other finite number, by its IEEE 754 binary64 bit pattern.
    Real(u64),
}

/// The content of a JSON value.
pub enum Json {
    Null,
    Bool(bool),
    Number(JsonNumber),
    String(Seq<char>),
    Array(Seq<Json>),
    Object(Map<Seq<char>, Json>),
}

/// `serde_json::Value`, of which the verifier sees nothing but what
/// [`json_of`] says.
#[verifier::external_type_specification]
#[verifier::external_body]
pub struct ExJsonValue(serde_json::Value);

/// `serde_json::Map`, of which the verifier sees nothing but what
/// [`members_of`] says.
#[verifier::external_type_specification]
#[verifier::external_body]
#[verifier::reject_recursive_types(K)]
#[verifier::reject_recursive_types(V)]
pub struct ExJsonMap<K, V>(serde_json::Map<K, V>);

/// The content of a `serde_json::Value`: which kind of JSON value it is and
/// what it holds, down to the leaves.
pub uninterp spec fn json_of(value: serde_json::Value) -> Json;

/// The members of a `serde_json::Map`: its keys, and under each key the
/// content of the value that the map holds there.
pub uninterp spec fn members_of(object: serde_json::Map<String, serde_json::Value>) -> Map<
    Seq<char>,
    Json,
>;

/// The members of an object without members.
pub open spec fn no_members() -> Map<Seq<char>, Json> {
    Map::empty()
}

/// The members of an object that holds each string of `fields` under its key.
pub open spec fn string_members(fields: Map<Seq<char>, Seq<char>>) -> Map<Seq<char>, Json> {
    fields.map_values(|text: Seq<char>| Json::String(text))
}

/// Every member is a string.
pub open spec fn all_strings(members: Map<Seq<char>, Json>) -> bool {
    forall|name: Seq<char>| members.contains_key(name) ==> #[trigger] members[name] is String
}

/// The strings held by members that are all strings.
pub open spec fn member_strings(members: Map<Seq<char>, Json>) -> Map<Seq<char>, Seq<char>> {
    members.map_values(|value: Json| value->String_0)
}

/// `names` lists the keys of `members`, each once.
pub open spec fn lists_keys(names: Seq<String>, members: Map<Seq<char>, Json>) -> bool {
    &&& forall|i: int| 0 <= i < names.len() ==> members.contains_key((#[trigger] names[i])@)
    &&& forall|name: Seq<char>|
        members.contains_key(name) ==> exists|i: int|
            0 <= i < names.len() && (#[trigger] names[i])@ == name
    &&& forall|i: int, j: int|
        0 <= i < j < names.len() ==> (#[trigger] names[i])@ != (#[trigger] names[j])@
}

/// `serde_json::Value::default`, which is the JSON `null`.
#[verifier::external_body]
pub(crate) fn null_value() -> (value: serde_json::Value)
    ensures
        json_of(value) == Json::Null,
{
    serde_json::Value::default()
}

/// `serde_json::Value::from` on a `String`: the JSON string with that text.
#[verifier::external_body]
pub(crate) fn string_value(text: String) -> (value: serde_json::Value)
    ensures
        json_of(value) == Json::String(text@),
{
    serde_json::Value::from(text)
}

/// `serde_json::Value::from` on a `u64`: the JSON number that is this
/// non-negative integer.
#[verifier::external_body]
pub(crate) fn unsigned_value(number: u64) -> (value: serde_json::Value)
    ensures
        json_of(value) == Json::Number(JsonNumber::Unsigned(number)),
{
    serde_json::Value::from(number)
}

/// `serde_json::Value::from` on a `serde_json::Map`: the JSON object with the
/// members of the map.
#[verifier::external_body]
pub(crate) fn object_value(members: serde_json::Map<String, serde_json::Value>) -> (value: serde_json::Value)
    ensures
        json_of(value) == Json::Object(members_of(members)),
{
    serde_json::Value::from(members)
}

/// `serde_json::Value::clone`: a value with the same content.
#[verifier::external_body]
pub(crate) fn clone_value(value: &serde_json::Value) -> (copy: serde_json::Value)
    ensures
        json_of(copy) == json_of(*value),
{
    value.clone()
}

/// `serde_json::Value::as_object`: the map of an object, and `None` for every
/// other value.
#[verifier::external_body]
pub(crate) fn value_as_object(value: &serde_json::Value) -> (object: Option<
    &serde_json::Map<String, serde_json::Value>,
>)
    ensures
        match object {
            Some(members) => json_of(*value) == Json::Object(members_of(*members)),
            None => !(json_of(*value) is Object),
        },
{
    value.as_object()
}

/// `serde_json::Value::as_str`: the text of a string, and `None` for every
/// other value.
#[verifier::external_body]
pub(crate) fn value_as_str(value: &serde_json::Value) -> (text: Option<&str>)
    ensures
        match text {
            Some(slice) => json_of(*value) == Json::String(slice@),
            None => !(json_of(*value) is String),
        },
{
    value.as_str()
}

/// `serde_json::Map::new`: a map without members.
#[verifier::external_body]
pub(crate) fn empty_members() -> (members: serde_json::Map<String, serde_json::Value>)
    ensures
        members_of(members) == no_members(),
{
    serde_json::Map::new()
}

/// `serde_json::Map::insert`: afterwards the key holds the value, whether or
/// not it held one before, and every other key is as it was.
#[verifier::external_body]
pub(crate) fn insert_member(
    object: &mut serde_json::Map<String, serde_json::Value>,
    name: String,
    value: serde_json::Value,
)
    ensures
        members_of(*final(object)) == members_of(*old(object)).insert(name@, json_of(value)),
{
    object.insert(name, value);
}

/// `serde_json::Map::get` with a string slice: the value under the key, and
/// `None` where the map has no such key.
#[verifier::external_body]
pub(crate) fn get_member<'a>(object: &'a serde_json::Map<String, serde_json::Value>, name: &str) -> (value:
    Option<&'a serde_json::Value>)
    ensures
        match value {
            Some(found) => members_of(*object).contains_key(name@) && json_of(*found)
                == members_of(*object)[name@],
            None => !members_of(*object).contains_key(name@),
        },
{
    object.get(name)
}

/// `serde_json::Map::keys`, collected: every key of the map, each once.
#[verifier::external_body]
pub(crate) fn member_names(object: &serde_json::Map<String, serde_json::Value>) -> (names: Vec<String>)
    ensures
        lists_keys(names@, members_of(*object)),
{
    object.keys().cloned().collect()
}

/// The JSON object that holds each value of `fields` as a string under its
/// key.
pub fn strings_to_object(fields: &StringMap) -> (value: serde_json::Value)
    ensures
        json_of(value) == Json::Object(string_members(fields@)),
{
    let pairs = fields.entries();
    let mut object = empty_members();
    let mut i: usize = 0;
    while i < pairs.len()
        invariant
            i <= pairs@.len(),
            members_of(object) == string_members(map_of(pairs@.take(i as int))),
        decreases pairs@.len() - i,
    {
        let name = pairs[i].0.clone();
        let text = pairs[i].1.clone();
        insert_member(&mut object, name, string_value(text));
        assert(pairs@.take(i + 1).drop_last() == pairs@.take(i as int));
        i += 1;
    }
    assert(pairs@.take(i as int) == pairs@);
    object_value(object)
}

/// The strings of a JSON object all of whose members are strings; `None` for
/// every other value.
pub fn object_to_strings(value: &serde_json::Value) -> (fields: Option<StringMap>)
    ensures
        match fields {
            Some(map) => json_of(*value) matches Json::Object(members) && all_strings(members)
                && map@ == member_strings(members),
            None => !(json_of(*value) matches Json::Object(members) && all_strings(members)),
        },
{
    let object = match value_as_object(value) {
        Some(object) => object,
        None => {
            return None;
        },
    };
    let ghost members = members_of(*object);
    let names = member_names(object);
    let mut map = StringMap::new();
    let mut i: usize = 0;
    while i < names.len()
        invariant
            i <= names@.len(),
            members == members_of(*object),
            json_of(*value) == Json::Object(members),
            lists_keys(names@, members),
            forall|name: Seq<char>|
                map@.contains_key(name) <==> exists|j: int|
                    0 <= j < i && (#[trigger] names@[j])@ == name,
            forall|name: Seq<char>|
                map@.contains_key(name) ==> Json::String(#[trigger] map@[name]) == members[name],
        decreases names@.len() - i,
    {
        let text = match get_member(object, names[i].as_str()) {
            Some(member) => match value_as_str(member) {
                Some(text) => text,
                None => {
                    return None;
                },
            },
            None => {
                return None;
            },
        };
        map.insert(names[i].clone(), text.to_owned());
        i += 1;
    }
    proof {
        assert forall|name: Seq<char>| members.contains_key(name) implies #[trigger] members[name]
            == Json::String(map@[name]) by {
            let j = choose|j: int| 0 <= j < names@.len() && (#[trigger] names@[j])@ == name;
            assert(map@.contains_key(name));
        }
        assert(map@ =~= member_strings(members));
    }
    Some(map)
}

} // verus!
