//! JSON values, as `serde_json` holds them.
use serde_json::Value;
use vstd::prelude::*;

verus! {

/// `serde_json::Value`, a JSON value.
#[verifier::external_type_specification]
#[verifier::external_body]
pub struct ExValue(Value);

/// What a JSON value holds. A number that is no integer is given by the bits
/// of its IEEE 754 representation.
pub enum Json {
    Null,
    Bool(bool),
    Int(int),
    Float(u64),
    Text(Seq<char>),
    Array(Seq<Json>),
    Object(Map<Seq<char>, Json>),
}

/// The contents of a `serde_json::Value`.
pub uninterp spec fn json_of(value: Value) -> Json;

/// The compact text that `serde_json::to_string` writes for a value.
pub uninterp spec fn json_text(json: Json) -> Seq<char>;

/// The value that `serde_json::from_str` reads from a text, `None` where the
/// text is not one JSON value.
pub uninterp spec fn json_parse(text: Seq<char>) -> Option<Json>;

/// The contents of a list of values.
pub open spec fn jsons(values: Seq<Value>) -> Seq<Json> {
    values.map_values(|v: Value| json_of(v))
}

/// The member `key` of an object; nothing else has members.
pub open spec fn member(json: Json, key: Seq<char>) -> Option<Json> {
    match json {
        Json::Object(members) => if members.contains_key(key) {
            Some(members[key])
        } else {
            None
        },
        _ => None,
    }
}

/// The text that a value holds, if it is a text.
pub open spec fn text_in(json: Json) -> Option<Seq<char>> {
    match json {
        Json::Text(text) => Some(text),
        _ => None,
    }
}

/// The integer that a value holds, if it is one that fits 64 bits with a sign.
pub open spec fn int_in(json: Json) -> Option<i64> {
    match json {
        Json::Int(n) => if i64::MIN <= n <= i64::MAX {
            Some(n as i64)
        } else {
            None
        },
        _ => None,
    }
}

/// The truth value that a value holds, if it is one.
pub open spec fn bool_in(json: Json) -> Option<bool> {
    match json {
        Json::Bool(b) => Some(b),
        _ => None,
    }
}

/// The text under `key`, if there is one.
pub open spec fn text_member(json: Json, key: Seq<char>) -> Option<Seq<char>> {
    match member(json, key) {
        Some(item) => text_in(item),
        None => None,
    }
}

/// The integer under `key`, if there is one.
pub open spec fn int_member(json: Json, key: Seq<char>) -> Option<i64> {
    match member(json, key) {
        Some(item) => int_in(item),
        None => None,
    }
}

/// The truth value under `key`, `false` where there is none.
pub open spec fn flag_member(json: Json, key: Seq<char>) -> bool {
    match member(json, key) {
        Some(item) => bool_in(item) == Some(true),
        None => false,
    }
}

/// Every text in the value has fewer than `n` characters.
pub open spec fn shorter(json: Json, n: nat) -> bool
    decreases json,
{
    match json {
        Json::Text(text) => text.len() < n,
        Json::Array(items) => forall|i: int|
            0 <= i < items.len() ==> shorter(#[trigger] items[i], n),
        Json::Object(members) => forall|key: Seq<char>|
            members.dom().contains(key) ==> shorter(#[trigger] members[key], n),
        _ => true,
    }
}

/// `serde_json::from_str` for a `Value`. A text inside the value stood between
/// quotation marks and may have been written with escapes, so it is shorter
/// than the whole. A number with a decimal point is no integer: `0.0` is the
/// positive zero, all of whose bits are zero.
#[verifier::external_body]
pub(crate) fn parse_value(text: &str) -> (value: Option<Value>)
    ensures
        match value {
            Some(v) => {
                &&& json_parse(text@) == Some(json_of(v))
                &&& shorter(json_of(v), text@.len())
                &&& text@ == "0.0"@ ==> json_of(v) == Json::Float(0)
            },
            None => json_parse(text@) is None && text@ != "0.0"@,
        },
{
    serde_json::from_str::<Value>(text).ok()
}

/// The number zero that is no integer.
pub(crate) fn float_zero() -> (value: Value)
    ensures
        json_of(value) == Json::Float(0),
{
    match parse_value("0.0") {
        Some(zero) => zero,
        None => null(),
    }
}

/// `serde_json::to_string` for a `Value`, which does not fail: every key of an
/// object in a `Value` is a string.
#[verifier::external_body]
pub(crate) fn value_text(value: &Value) -> (text: String)
    ensures
        text@ == json_text(json_of(*value)),
{
    serde_json::to_string(value).unwrap_or_default()
}

/// `Value::get` with a string: the member of that name, if the value is an
/// object that has one.
#[verifier::external_body]
pub(crate) fn get_member<'a>(value: &'a Value, key: &str) -> (item: Option<&'a Value>)
    ensures
        match item {
            Some(v) => member(json_of(*value), key@) == Some(json_of(*v)),
            None => member(json_of(*value), key@) is None,
        },
{
    value.get(key)
}

/// `Value::as_str`.
pub assume_specification[ Value::as_str ](value: &Value) -> (found: Option<&str>)
    ensures
        match found {
            Some(t) => text_in(json_of(*value)) == Some(t@),
            None => text_in(json_of(*value)) is None,
        },
;

/// `Value::as_i64`: the value of an integer between `i64::MIN` and `i64::MAX`.
pub assume_specification[ Value::as_i64 ](value: &Value) -> (number: Option<i64>)
    ensures
        number == int_in(json_of(*value)),
;

/// `Value::as_bool`.
pub assume_specification[ Value::as_bool ](value: &Value) -> (truth: Option<bool>)
    ensures
        truth == bool_in(json_of(*value)),
;

/// `Value::is_number`.
pub assume_specification[ Value::is_number ](value: &Value) -> (result: bool)
    ensures
        result == (json_of(*value) is Int || json_of(*value) is Float),
;

/// `Value::is_null`.
pub assume_specification[ Value::is_null ](value: &Value) -> (result: bool)
    ensures
        result == (json_of(*value) is Null),
;

/// `Value::as_array`: the items of an array.
pub assume_specification[ Value::as_array ](value: &Value) -> (items: Option<&Vec<Value>>)
    ensures
        match items {
            Some(list) => json_of(*value) == Json::Array(jsons(list@)),
            None => !(json_of(*value) is Array),
        },
;

/// The clone of a `Value` holds the same.
pub assume_specification[ <Value as Clone>::clone ](value: &Value) -> (copy: Value)
    ensures
        json_of(copy) == json_of(*value),
;

/// `Value::Null`.
#[verifier::external_body]
pub(crate) fn null() -> (value: Value)
    ensures
        json_of(value) == Json::Null,
{
    Value::Null
}

/// `Value::from` for a truth value.
#[verifier::external_body]
pub(crate) fn boolean(truth: bool) -> (value: Value)
    ensures
        json_of(value) == Json::Bool(truth),
{
    Value::from(truth)
}

/// `Value::from` for an integer.
#[verifier::external_body]
pub(crate) fn integer(number: i64) -> (value: Value)
    ensures
        json_of(value) == Json::Int(number as int),
{
    Value::from(number)
}

/// `Value::from` for an unsigned integer.
#[verifier::external_body]
pub(crate) fn unsigned(number: u64) -> (value: Value)
    ensures
        json_of(value) == Json::Int(number as int),
{
    Value::from(number)
}

/// `Value::from` for a text.
#[verifier::external_body]
pub(crate) fn string(text: &str) -> (value: Value)
    ensures
        json_of(value) == Json::Text(text@),
{
    Value::from(text)
}

/// `Value::from` for a list of values.
#[verifier::external_body]
pub(crate) fn array(items: Vec<Value>) -> (value: Value)
    ensures
        json_of(value) == Json::Array(jsons(items@)),
{
    Value::from(items)
}

/// `serde_json::Map::new`, as a value: the object without members.
#[verifier::external_body]
pub(crate) fn empty_object() -> (value: Value)
    ensures
        json_of(value) == Json::Object(Map::empty()),
{
    Value::Object(serde_json::Map::new())
}

/// `IndexMut` of a `Value` that is an object: the member `key` is replaced, or
/// added where there was none.
#[verifier::external_body]
pub(crate) fn set_member(value: Value, key: &str, item: Value) -> (result: Value)
    requires
        json_of(value) is Object,
    ensures
        json_of(result) == Json::Object(json_of(value)->Object_0.insert(key@, json_of(item))),
{
    let mut value = value;
    value[key] = item;
    value
}

/// A JSON object in the making.
pub struct Members {
    value: Value,
}

impl Members {
    #[verifier::type_invariant]
    spec fn is_object(self) -> bool {
        json_of(self.value) is Object
    }

    /// The members so far.
    pub closed spec fn view(&self) -> Map<Seq<char>, Json> {
        json_of(self.value)->Object_0
    }

    /// No members yet.
    pub fn new() -> (members: Self)
        ensures
            members@ == Map::<Seq<char>, Json>::empty(),
    {
        Members { value: empty_object() }
    }

    /// The members of an object.
    pub fn of(value: Value) -> (members: Self)
        requires
            json_of(value) is Object,
        ensures
            json_of(value) == Json::Object(members@),
    {
        Members { value }
    }

    /// One member more, in place of an earlier one of that name.
    pub fn with(self, key: &str, item: Value) -> (members: Self)
        ensures
            members@ == self@.insert(key@, json_of(item)),
    {
        proof {
            use_type_invariant(&self);
        }
        let Members { value } = self;
        Members { value: set_member(value, key, item) }
    }

    /// The text under `key`, if there is one.
    pub fn text(&self, key: &str) -> (found: Option<&str>)
        ensures
            match found {
                Some(t) => text_member(Json::Object(self@), key@) == Some(t@),
                None => text_member(Json::Object(self@), key@) is None,
            },
    {
        proof {
            use_type_invariant(self);
        }
        get_text(&self.value, key)
    }

    /// The object with these members.
    pub fn value(self) -> (value: Value)
        ensures
            json_of(value) == Json::Object(self@),
    {
        proof {
            use_type_invariant(&self);
        }
        let Members { value } = self;
        value
    }
}

/// The text under `key`, if there is one.
pub(crate) fn get_text<'a>(value: &'a Value, key: &str) -> (text: Option<&'a str>)
    ensures
        match text {
            Some(t) => text_member(json_of(*value), key@) == Some(t@),
            None => text_member(json_of(*value), key@) is None,
        },
{
    match get_member(value, key) {
        Some(item) => item.as_str(),
        None => None,
    }
}

/// The integer under `key`, if there is one.
pub(crate) fn get_int(value: &Value, key: &str) -> (number: Option<i64>)
    ensures
        number == int_member(json_of(*value), key@),
{
    match get_member(value, key) {
        Some(item) => item.as_i64(),
        None => None,
    }
}

/// The truth value under `key`, `false` where there is none.
pub(crate) fn get_flag(value: &Value, key: &str) -> (truth: bool)
    ensures
        truth == flag_member(json_of(*value), key@),
{
    match get_member(value, key) {
        Some(item) => match item.as_bool() {
            Some(truth) => truth,
            None => false,
        },
        None => false,
    }
}

} // verus!
