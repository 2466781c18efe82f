//! JSON values, as `serde_json` holds, reads and writes them.

use serde_json::Value;
use vstd::prelude::*;

verus! {

/// `serde_json::Value`, a JSON value.
#[verifier::external_type_specification]
#[verifier::external_body]
pub struct ExValue(serde_json::Value);

/// `serde_json::Error`, why a JSON text could not be read or written.
#[verifier::external_type_specification]
#[verifier::external_body]
pub struct ExJsonError(serde_json::Error);

/// The members of an object; `None` for any other JSON value.
pub uninterp spec fn members(v: Value) -> Option<Map<Seq<char>, Value>>;

/// The elements of an array; `None` for any other JSON value.
pub uninterp spec fn elements(v: Value) -> Option<Seq<Value>>;

/// What a JSON string holds; `None` for any other JSON value.
pub uninterp spec fn string_value(v: Value) -> Option<Seq<char>>;

/// The compact JSON text of a value, if it has one.
pub uninterp spec fn json_text(v: Value) -> Option<Seq<char>>;

/// The value that a JSON text denotes, if it denotes one.
pub uninterp spec fn json_value(text: Seq<char>) -> Option<Value>;

/// The member of `v` under `key`, if `v` is an object that has one.
pub open spec fn member(v: Value, key: Seq<char>) -> Option<Value> {
    match members(v) {
        Some(m) => if m.contains_key(key) {
            Some(m[key])
        } else {
            None
        },
        None => None,
    }
}

/// The members that a list of entries makes.
pub open spec fn members_of(entries: Seq<(String, Value)>) -> Map<Seq<char>, Value>
    decreases entries.len(),
{
    if entries.len() == 0 {
        Map::empty()
    } else {
        members_of(entries.drop_last()).insert(entries.last().0@, entries.last().1)
    }
}

/// No key stands twice in a list of entries.
pub open spec fn distinct_keys(entries: Seq<(String, Value)>) -> bool {
    forall|i: int, j: int|
        0 <= i < j < entries.len() ==> #[trigger] entries[i].0@ != #[trigger] entries[j].0@
}

/// A key that `serde_json` does not keep for itself: those start with a `$`.
pub open spec fn is_plain_key(key: Seq<char>) -> bool {
    key.len() == 0 || key[0] != '$'
}

/// An object under plain keys whose members are strings.
pub open spec fn is_text_object(v: Value) -> bool {
    members(v) matches Some(m) && forall|k: Seq<char>| #[trigger]
        m.contains_key(k) ==> is_plain_key(k) && string_value(m[k]) is Some
}

/// An object under plain keys whose members are strings or objects of strings.
pub open spec fn is_report(v: Value) -> bool {
    members(v) matches Some(m) && forall|k: Seq<char>| #[trigger]
        m.contains_key(k) ==> is_plain_key(k) && (string_value(m[k]) is Some || is_text_object(
            m[k],
        ))
}

/// An object without members.
pub open spec fn is_empty_object(v: Value) -> bool {
    members(v) == Some(Map::<Seq<char>, Value>::empty())
}

/// The JSON value `null`.
pub open spec fn is_null(v: Value) -> bool {
    json_text(v) == Some("null"@)
}

/// `Value::get` with a string index: the member under that key, if the value is
/// an object that has it.
#[verifier::external_body]
pub(crate) fn get<'a>(v: &'a Value, key: &str) -> (res: Option<&'a Value>)
    ensures
        res matches Some(found) ==> member(*v, key@) == Some(*found),
        res is None ==> member(*v, key@) is None,
{
    v.get(key)
}

/// `Value::as_str`: what a JSON string holds.
#[verifier::external_body]
pub(crate) fn as_str<'a>(v: &'a Value) -> (res: Option<&'a str>)
    ensures
        res matches Some(s) ==> string_value(*v) == Some(s@),
        res is None ==> string_value(*v) is None,
{
    v.as_str()
}

/// `Value::default`: the JSON value `null`, which is written `null`.
#[verifier::external_body]
pub(crate) fn null() -> (res: Value)
    ensures
        is_null(res),
{
    Value::default()
}

/// `Value::from` on a `String`: the JSON string that holds it.
#[verifier::external_body]
pub(crate) fn string(s: String) -> (res: Value)
    ensures
        string_value(res) == Some(s@),
{
    Value::from(s)
}

/// `Value::from` on a `Vec`: the array of its elements.
#[verifier::external_body]
pub(crate) fn array(items: Vec<Value>) -> (res: Value)
    ensures
        elements(res) == Some(items@),
{
    Value::from(items)
}

/// `Value::from_iter` on pairs of a key and a value: the object with these
/// members. An object holds its members and nothing else, so any other value with
/// the same members is the same value.
#[verifier::external_body]
pub(crate) fn object(entries: Vec<(String, Value)>) -> (res: Value)
    requires
        distinct_keys(entries@),
    ensures
        members(res) == Some(members_of(entries@)),
        forall|other: Value| #[trigger] members(other) == members(res) ==> other == res,
{
    Value::from_iter(entries)
}

/// `serde_json::to_string` on a value: its compact JSON text. An object without
/// members is written `{}`. An object of strings and of objects of strings is always
/// written, and `serde_json::from_str` reads the same value back from the text. (A
/// float may come back as a neighbour of itself, a deeply nested value not at all,
/// and an object under one of the keys that `serde_json` keeps for itself as another
/// value, so nothing is said of reading back other values.)
#[verifier::external_body]
pub(crate) fn to_string(v: &Value) -> (res: Result<String, serde_json::Error>)
    ensures
        res matches Ok(s) ==> json_text(*v) == Some(s@),
        res is Err ==> json_text(*v) is None,
        is_empty_object(*v) ==> res is Ok && res->Ok_0@ == "{}"@,
        is_report(*v) ==> res is Ok && json_value(res->Ok_0@) == Some(*v),
{
    serde_json::to_string(v)
}

/// `serde_json::from_str` into a `Value`: the value that a JSON text denotes.
#[verifier::external_body]
pub(crate) fn from_str(text: &str) -> (res: Result<Value, serde_json::Error>)
    ensures
        res matches Ok(v) ==> json_value(text@) == Some(v),
        res is Err ==> json_value(text@) is None,
{
    serde_json::from_str(text)
}

/// The JSON text of a report, which always has one.
pub(crate) fn report_text(v: &Value) -> (res: String)
    requires
        is_report(*v),
    ensures
        json_text(*v) == Some(res@),
        json_value(res@) == Some(*v),
{
    match to_string(v) {
        Ok(text) => text,
        Err(_) => {
            assert(false);
            String::new()
        },
    }
}

} // verus!
