//! Reading and building `serde_json` values.

use vstd::prelude::*;

verus! {

/// What a JSON value holds, as a mathematical tree.
///
/// A number is known by the signed 64-bit integer that it is equal to, if it is stored as an
/// integer in that range; every other number is `Number(None)`.
pub enum JsonTree {
    Null,
    Bool(bool),
    Number(Option<i64>),
    Text(Seq<char>),
    Array(Seq<JsonTree>),
    Object(Map<Seq<char>, JsonTree>),
}

impl JsonTree {
    /// The member of an object under `key`; nothing for any other value.
    pub open spec fn member(self, key: Seq<char>) -> Option<JsonTree> {
        match self {
            JsonTree::Object(entries) => if entries.contains_key(key) {
                Some(entries[key])
            } else {
                None
            },
            _ => None,
        }
    }

    /// The text of a string value.
    pub open spec fn text(self) -> Option<Seq<char>> {
        match self {
            JsonTree::Text(text) => Some(text),
            _ => None,
        }
    }

    /// The text of the member under `key`, if there is one and it is a string.
    pub open spec fn member_text(self, key: Seq<char>) -> Option<Seq<char>> {
        match self.member(key) {
            Some(value) => value.text(),
            None => None,
        }
    }
}

/// The JSON value of the `serde_json` crate.
#[verifier::external_type_specification]
#[verifier::external_body]
pub struct ExValue(serde_json::Value);

/// The JSON object of the `serde_json` crate.
#[verifier::external_type_specification]
#[verifier::external_body]
#[verifier::reject_recursive_types(K)]
#[verifier::reject_recursive_types(V)]
pub struct ExMap<K, V>(serde_json::Map<K, V>);

/// What a `serde_json::Value` holds.
pub uninterp spec fn json_tree(value: serde_json::Value) -> JsonTree;

/// What a `serde_json::Map` holds.
pub uninterp spec fn json_entries(
    map: serde_json::Map<String, serde_json::Value>,
) -> Map<Seq<char>, JsonTree>;

/// `serde_json::Value::get` with a string index: the member of an object under that key, and
/// `None` for a missing key or a value that is no object.
#[verifier::external_body]
pub(crate) fn value_get<'a>(value: &'a serde_json::Value, key: &str) -> (member: Option<
    &'a serde_json::Value,
>)
    ensures
        match member {
            Some(found) => json_tree(*value).member(key@) == Some(json_tree(*found)),
            None => json_tree(*value).member(key@) is None,
        },
{
    value.get(key)
}

/// `serde_json::Value::as_str`: the text of a string, and `None` for any other value.
pub assume_specification[ serde_json::Value::as_str ](value: &serde_json::Value) -> (text: Option<
    &str,
>)
    ensures
        match text {
            Some(text) => json_tree(*value).text() == Some(text@),
            None => json_tree(*value).text() is None,
        },
;

/// `serde_json::Value::as_bool`: the truth value of a boolean, and `None` for any other value.
pub assume_specification[ serde_json::Value::as_bool ](value: &serde_json::Value) -> (flag: Option<
    bool,
>)
    ensures
        flag == (match json_tree(*value) {
            JsonTree::Bool(flag) => Some(flag),
            _ => None,
        }),
;

/// `serde_json::Value::as_i64`: the integer that a number is equal to, where it is stored as an
/// integer that fits, and `None` for any other value.
pub assume_specification[ serde_json::Value::as_i64 ](value: &serde_json::Value) -> (number: Option<
    i64,
>)
    ensures
        number == (match json_tree(*value) {
            JsonTree::Number(number) => number,
            _ => None,
        }),
;

/// `serde_json::Value::clone`: the same value, down to every number in it.
pub assume_specification[ <serde_json::Value as Clone>::clone ](value: &serde_json::Value) -> (copy:
    serde_json::Value)
    ensures
        copy == *value,
;

/// `serde_json::Value::from` on a string slice: a string value with that text.
#[verifier::external_body]
pub(crate) fn text_value(text: &str) -> (value: serde_json::Value)
    ensures
        json_tree(value) == JsonTree::Text(text@),
{
    serde_json::Value::from(text)
}

/// `serde_json::Value::from` on a map: an object with the entries of the map.
#[verifier::external_body]
pub(crate) fn object_value(
    map: serde_json::Map<String, serde_json::Value>,
) -> (value: serde_json::Value)
    ensures
        json_tree(value) == JsonTree::Object(json_entries(map)),
{
    serde_json::Value::from(map)
}

/// `serde_json::Map::new`: a map without entries.
pub assume_specification[ serde_json::Map::<String, serde_json::Value>::new ]() -> (fresh:
    serde_json::Map<String, serde_json::Value>)
    ensures
        (json_entries(fresh) == Map::<Seq<char>, JsonTree>::empty()),
;

/// `serde_json::Map::insert`: afterwards the key leads to the new value and every other entry is
/// as before; the value that the key led to before is handed back.
pub assume_specification[ serde_json::Map::<String, serde_json::Value>::insert ](
    map: &mut serde_json::Map<String, serde_json::Value>,
    k: String,
    v: serde_json::Value,
) -> (previous: Option<serde_json::Value>)
    ensures
        json_entries(*final(map)) == json_entries(*old(map)).insert(k@, json_tree(v)),
        match previous {
            Some(value) => json_entries(*old(map)).contains_key(k@) && json_entries(
                *old(map),
            )[k@] == json_tree(value),
            None => !json_entries(*old(map)).contains_key(k@),
        },
;

/// The text of the member of `value` under `key`, if there is one and it is a string.
pub fn member_str<'a>(value: &'a serde_json::Value, key: &str) -> (text: Option<&'a str>)
    ensures
        match text {
            Some(text) => json_tree(*value).member_text(key@) == Some(text@),
            None => json_tree(*value).member_text(key@) is None,
        },
{
    match value_get(value, key) {
        Some(member) => member.as_str(),
        None => None,
    }
}

} // verus!
