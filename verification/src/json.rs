//! JSON values, read and written by `serde_json`.

use vstd::prelude::*;
use serde_json::Value;

verus! {

/// The tree that a JSON value is.
pub enum Json {
    Null,
    Bool(bool),
    /// An integer that is not negative.
    Unsigned(u64),
    /// A negative integer.
    Negative(i64),
    /// Any other number, by the 64 bits that hold it.
    Fraction(u64),
    Text(Seq<char>),
    Array(Seq<Json>),
    Object(Map<Seq<char>, Json>),
}

impl Json {
    /// The text of a string; nothing for any other value.
    pub open spec fn text(self) -> Option<Seq<char>> {
        match self {
            Json::Text(s) => Some(s),
            _ => None,
        }
    }

    /// The elements of an array; nothing for any other value.
    pub open spec fn items(self) -> Option<Seq<Json>> {
        match self {
            Json::Array(items) => Some(items),
            _ => None,
        }
    }

    /// The member of an object under `key`; nothing where there is none, or the
    /// value is no object.
    pub open spec fn member(self, key: Seq<char>) -> Option<Json> {
        match self {
            Json::Object(members) => if members.contains_key(key) {
                Some(members[key])
            } else {
                None
            },
            _ => None,
        }
    }

    /// The text of the member under `key`, where it is a string.
    pub open spec fn member_text(self, key: Seq<char>) -> Option<Seq<char>> {
        match self.member(key) {
            Some(member) => member.text(),
            None => None,
        }
    }
}

/// Whether a value has at most `depth` levels of arrays and objects, and no number
/// but integers.
pub open spec fn plain(json: Json, depth: nat) -> bool
    decreases depth,
{
    match json {
        Json::Fraction(_) => false,
        Json::Array(items) => depth > 0 && forall|i: int|
            0 <= i < items.len() ==> plain(#[trigger] items[i], (depth - 1) as nat),
        Json::Object(members) => depth > 0 && forall|key: Seq<char>| #[trigger]
            members.contains_key(key) ==> plain(members[key], (depth - 1) as nat),
        _ => true,
    }
}

#[verifier::external_type_specification]
#[verifier::external_body]
pub struct ExValue(serde_json::Value);

#[verifier::external_type_specification]
#[verifier::external_body]
#[verifier::reject_recursive_types(K)]
#[verifier::reject_recursive_types(V)]
pub struct ExMembers<K, V>(serde_json::Map<K, V>);

/// What a `serde_json::Value` holds.
pub uninterp spec fn tree(value: serde_json::Value) -> Json;

/// What a `serde_json::Map` holds: its values by their keys.
pub uninterp spec fn members(map: serde_json::Map<String, serde_json::Value>) -> Map<
    Seq<char>,
    Json,
>;

/// The trees of a list of values.
pub open spec fn trees(values: Seq<Value>) -> Seq<Json> {
    values.map_values(|v: Value| tree(v))
}

/// What `serde_json::from_str` reads in a text: a tree, or nothing where it is
/// an error.
pub uninterp spec fn read(text: Seq<char>) -> Option<Json>;

/// What the `Display` format of `serde_json::Value` writes for a tree.
pub uninterp spec fn written(json: Json) -> Seq<char>;

/// Calls `serde_json::from_str` for a `Value`; an error comes back as nothing.
/// Which texts are JSON, and which trees they are, is only named here.
#[verifier::external_body]
pub(crate) fn parse(text: &str) -> (value: Option<Value>)
    ensures
        match value {
            Some(v) => read(text@) == Some(tree(v)),
            None => read(text@) is None,
        },
{
    serde_json::from_str::<Value>(text).ok()
}

/// Formats a `serde_json::Value` with its `Display` format. The text is only
/// named here, but for two things. The compact format has no line break in it,
/// because strings are written with their control characters escaped. And
/// `serde_json::from_str` reads the value back, as long as it is not nested deeper
/// than that function allows and holds no number but integers; of fractions that
/// is not stated.
#[verifier::external_body]
pub(crate) fn write(value: &Value) -> (text: String)
    ensures
        text@ == written(tree(*value)),
        !text@.contains('\n'),
        plain(tree(*value), 100) ==> read(text@) == Some(tree(*value)),
{
    format!("{}", value)
}

/// `serde_json::Value::as_str` gives the text of a string, and nothing for any
/// other value.
pub assume_specification[ Value::as_str ](value: &Value) -> (text: Option<&str>)
    ensures
        match text {
            Some(s) => tree(*value).text() == Some(s@),
            None => tree(*value).text() is None,
        },
;

/// `serde_json::Value::as_array` gives the elements of an array, and nothing for
/// any other value.
pub assume_specification[ Value::as_array ](value: &Value) -> (items: Option<&Vec<Value>>)
    ensures
        match items {
            Some(v) => tree(*value).items() == Some(trees(v@)),
            None => tree(*value).items() is None,
        },
;

/// Calls `serde_json::Value::get` with a string: the member of an object under
/// that key, and nothing for any other value.
#[verifier::external_body]
pub(crate) fn get<'a>(value: &'a Value, key: &str) -> (member: Option<&'a Value>)
    ensures
        match member {
            Some(v) => tree(*value).member(key@) == Some(tree(*v)),
            None => tree(*value).member(key@) is None,
        },
{
    value.get(key)
}

/// Converts a text to a `serde_json::Value` with `From`.
#[verifier::external_body]
pub(crate) fn text_value(text: &str) -> (value: Value)
    ensures
        tree(value) == Json::Text(text@),
{
    Value::from(text)
}

/// Converts a number to a `serde_json::Value` with `From`.
#[verifier::external_body]
pub(crate) fn number_value(number: u64) -> (value: Value)
    ensures
        tree(value) == Json::Unsigned(number),
{
    Value::from(number)
}

/// Converts a truth value to a `serde_json::Value` with `From`.
#[verifier::external_body]
pub(crate) fn bool_value(truth: bool) -> (value: Value)
    ensures
        tree(value) == Json::Bool(truth),
{
    Value::from(truth)
}

/// Converts a list to a `serde_json::Value` with `From`.
#[verifier::external_body]
pub(crate) fn array_value(items: Vec<Value>) -> (value: Value)
    ensures
        tree(value) == Json::Array(trees(items@)),
{
    Value::from(items)
}

/// Converts a map to a `serde_json::Value` with `From`.
#[verifier::external_body]
pub(crate) fn object_value(map: serde_json::Map<String, Value>) -> (value: Value)
    ensures
        tree(value) == Json::Object(members(map)),
{
    Value::from(map)
}

/// `serde_json::Map::new` makes a map without members.
#[verifier::external_body]
pub(crate) fn no_members() -> (object: serde_json::Map<String, Value>)
    ensures
        (members(object) == Map::<Seq<char>, Json>::empty()),
{
    serde_json::Map::new()
}

/// Calls `serde_json::Map::insert`: the key holds the value from now on, whether
/// or not it was there before.
#[verifier::external_body]
pub(crate) fn insert(map: &mut serde_json::Map<String, Value>, key: &str, value: Value)
    ensures
        members(*final(map)) == members(*old(map)).insert(key@, tree(value)),
{
    map.insert(key.to_owned(), value);
}

/// The text of the member under `key`, where it is a string.
pub(crate) fn get_text<'a>(value: &'a Value, key: &str) -> (text: Option<&'a str>)
    ensures
        match text {
            Some(s) => tree(*value).member_text(key@) == Some(s@),
            None => tree(*value).member_text(key@) is None,
        },
{
    match get(value, key) {
        Some(member) => member.as_str(),
        None => None,
    }
}

} // verus!
