//! JSON values of the `serde_json` crate.

use vstd::prelude::*;

verus! {

/// A JSON value.
#[verifier::external_type_specification]
#[verifier::external_body]
pub struct ExJsonValue(serde_json::Value);

/// The members of a JSON object.
#[verifier::external_type_specification]
#[verifier::external_body]
#[verifier::reject_recursive_types(K)]
#[verifier::reject_recursive_types(V)]
pub struct ExJsonMap<K, V>(serde_json::Map<K, V>);

/// What a JSON value holds.
pub enum JsonContent {
    /// Null.
    Null,
    /// A boolean.
    Bool(bool),
    /// A number, and its value where it is an integer from zero up to the
    /// largest `u64`.
    Number(Option<u64>),
    /// A string.
    Text(Seq<char>),
    /// An array.
    List(Seq<serde_json::Value>),
    /// An object.
    Object(Map<Seq<char>, serde_json::Value>),
}

/// What a JSON value holds.
pub uninterp spec fn json_content(value: serde_json::Value) -> JsonContent;

/// What a map of members holds.
pub uninterp spec fn json_members(
    map: serde_json::Map<String, serde_json::Value>,
) -> Map<Seq<char>, serde_json::Value>;

/// The value that a JSON text stands for, where it is one.
pub uninterp spec fn json_document(text: Seq<char>) -> Option<serde_json::Value>;

/// A JSON value, looked into.
pub enum JsonRef<'a> {
    /// Null.
    Null,
    /// A boolean.
    Bool(bool),
    /// A number, and its value where it is an integer from zero up to the
    /// largest `u64`.
    Number(Option<u64>),
    /// A string.
    Text(&'a str),
    /// An array.
    List(&'a Vec<serde_json::Value>),
    /// An object.
    Object(&'a serde_json::Map<String, serde_json::Value>),
}

impl<'a> JsonRef<'a> {
    /// What the value holds.
    pub open spec fn content(self) -> JsonContent {
        match self {
            JsonRef::Null => JsonContent::Null,
            JsonRef::Bool(flag) => JsonContent::Bool(flag),
            JsonRef::Number(number) => JsonContent::Number(number),
            JsonRef::Text(text) => JsonContent::Text(text@),
            JsonRef::List(items) => JsonContent::List(items@),
            JsonRef::Object(map) => JsonContent::Object(json_members(*map)),
        }
    }
}

/// The parts that a JSON value is made of.
pub enum JsonParts {
    /// Null.
    Null,
    /// A boolean.
    Bool(bool),
    /// An integer.
    Number(u64),
    /// A string.
    Text(String),
    /// An object.
    Object(serde_json::Map<String, serde_json::Value>),
}

impl JsonParts {
    /// What a value made of the parts holds.
    pub open spec fn content(self) -> JsonContent {
        match self {
            JsonParts::Null => JsonContent::Null,
            JsonParts::Bool(flag) => JsonContent::Bool(flag),
            JsonParts::Number(number) => JsonContent::Number(Some(number)),
            JsonParts::Text(text) => JsonContent::Text(text@),
            JsonParts::Object(map) => JsonContent::Object(json_members(map)),
        }
    }
}

/// `serde_json::Value::clone` gives the same value again.
pub assume_specification[ <serde_json::Value as Clone>::clone ](
    value: &serde_json::Value,
) -> (r: serde_json::Value)
    ensures
        r == *value,
;

/// The variants of `serde_json::Value`, told apart. Of a number only what
/// `serde_json::Number::as_u64` gives is taken.
#[verifier::external_body]
pub(crate) fn open_value(value: &serde_json::Value) -> (r: JsonRef<'_>)
    ensures
        r.content() == json_content(*value),
{
    match value {
        serde_json::Value::Null => JsonRef::Null,
        serde_json::Value::Bool(flag) => JsonRef::Bool(*flag),
        serde_json::Value::Number(number) => JsonRef::Number(number.as_u64()),
        serde_json::Value::String(text) => JsonRef::Text(text),
        serde_json::Value::Array(items) => JsonRef::List(items),
        serde_json::Value::Object(map) => JsonRef::Object(map),
    }
}

/// The variants of `serde_json::Value`, made from what they hold; a number by
/// `serde_json::Number::from`.
#[verifier::external_body]
pub(crate) fn make_value(parts: JsonParts) -> (r: serde_json::Value)
    ensures
        json_content(r) == parts.content(),
{
    match parts {
        JsonParts::Null => serde_json::Value::Null,
        JsonParts::Bool(flag) => serde_json::Value::Bool(flag),
        JsonParts::Number(number) => serde_json::Value::Number(number.into()),
        JsonParts::Text(text) => serde_json::Value::String(text),
        JsonParts::Object(map) => serde_json::Value::Object(map),
    }
}

/// The members of a `serde_json::Value` that is an object, and any other value
/// as it is.
#[verifier::external_body]
pub(crate) fn into_members(value: serde_json::Value) -> (r: Result<
    serde_json::Map<String, serde_json::Value>,
    serde_json::Value,
>)
    ensures
        r is Ok ==> json_content(value) == JsonContent::Object(json_members(r->Ok_0)),
        r is Err ==> r->Err_0 == value && !(json_content(value) is Object),
{
    match value {
        serde_json::Value::Object(map) => Ok(map),
        other => Err(other),
    }
}

/// No members.
pub open spec fn no_members() -> Map<Seq<char>, serde_json::Value> {
    Map::empty()
}

/// `serde_json::Map::new`: a map without members.
#[verifier::external_body]
pub(crate) fn new_members() -> (r: serde_json::Map<String, serde_json::Value>)
    ensures
        json_members(r) == no_members(),
{
    serde_json::Map::new()
}

/// `serde_json::Map::insert`: the member with this key gets the value, whether
/// there was one or not.
#[verifier::external_body]
pub(crate) fn put_member(
    map: &mut serde_json::Map<String, serde_json::Value>,
    key: String,
    value: serde_json::Value,
)
    ensures
        json_members(*final(map)) == json_members(*old(map)).insert(key@, value),
{
    map.insert(key, value);
}

/// The member with a key, where there is one.
pub open spec fn member(
    members: Map<Seq<char>, serde_json::Value>,
    key: Seq<char>,
) -> Option<serde_json::Value> {
    if members.contains_key(key) {
        Some(members[key])
    } else {
        None
    }
}

/// The value behind a reference that may be missing.
pub open spec fn behind(value: Option<&serde_json::Value>) -> Option<serde_json::Value> {
    match value {
        Some(v) => Some(*v),
        None => None,
    }
}

/// `serde_json::Map::get`: the member with a key, where there is one.
#[verifier::external_body]
pub(crate) fn find_member<'a>(
    map: &'a serde_json::Map<String, serde_json::Value>,
    key: &str,
) -> (r: Option<&'a serde_json::Value>)
    ensures
        behind(r) == member(json_members(*map), key@),
{
    map.get(key)
}

/// `serde_json::from_str`: the value that a JSON text stands for. What is
/// wrong with another text is left out.
#[verifier::external_body]
pub(crate) fn parse_json(text: &str) -> (r: Option<serde_json::Value>)
    ensures
        r == json_document(text@),
{
    serde_json::from_str(text).ok()
}

} // verus!
