//! JSON values: what a `serde_json::Value` holds, and how it is read.

use vstd::prelude::*;

verus! {

/// What a JSON value holds. A number that is not an integer keeps no value:
/// nothing here reads one.
pub enum Json {
    Null,
    Bool(bool),
    Int(int),
    Float,
    Str(Seq<char>),
    Array(Seq<Json>),
    Object(Map<Seq<char>, Json>),
}

impl Json {
    /// The member `key` of an object.
    pub open spec fn member(self, key: Seq<char>) -> Option<Json> {
        match self {
            Json::Object(members) => if members.contains_key(key) {
                Some(members[key])
            } else {
                None
            },
            _ => None,
        }
    }

    /// The value of a boolean.
    pub open spec fn as_bool(self) -> Option<bool> {
        match self {
            Json::Bool(b) => Some(b),
            _ => None,
        }
    }

    /// The value of an integer that an `i64` can hold.
    pub open spec fn as_i64(self) -> Option<i64> {
        match self {
            Json::Int(n) => if i64::MIN <= n <= i64::MAX {
                Some(n as i64)
            } else {
                None
            },
            _ => None,
        }
    }

    /// The value of an integer that a `u64` can hold.
    pub open spec fn as_u64(self) -> Option<u64> {
        match self {
            Json::Int(n) => if 0 <= n <= u64::MAX {
                Some(n as u64)
            } else {
                None
            },
            _ => None,
        }
    }

    /// The characters of a string.
    pub open spec fn as_str(self) -> Option<Seq<char>> {
        match self {
            Json::Str(s) => Some(s),
            _ => None,
        }
    }

    /// The member `key`, where it is there and not null.
    pub open spec fn present(self, key: Seq<char>) -> Option<Json> {
        match self.member(key) {
            Some(value) => if value is Null {
                None
            } else {
                Some(value)
            },
            None => None,
        }
    }

    /// Whether the member `key` is the boolean true.
    pub open spec fn flag_at(self, key: Seq<char>) -> bool {
        match self.member(key) {
            Some(value) => value.as_bool() == Some(true),
            None => false,
        }
    }

    /// The member `key` as an `i64`, 0 where it is none.
    pub open spec fn i64_at(self, key: Seq<char>) -> i64 {
        match self.member(key) {
            Some(value) => match value.as_i64() {
                Some(n) => n,
                None => 0,
            },
            None => 0,
        }
    }

    /// The member `key` as a `u64`, 0 where it is none.
    pub open spec fn u64_at(self, key: Seq<char>) -> u64 {
        match self.member(key) {
            Some(value) => match value.as_u64() {
                Some(n) => n,
                None => 0,
            },
            None => 0,
        }
    }

    /// The characters of the member `key`, where it is a string.
    pub open spec fn str_at(self, key: Seq<char>) -> Option<Seq<char>> {
        match self.member(key) {
            Some(value) => value.as_str(),
            None => None,
        }
    }

    /// The items of the member `key`, none where it is no array.
    pub open spec fn items_at(self, key: Seq<char>) -> Seq<Json> {
        match self.member(key) {
            Some(Json::Array(items)) => items,
            _ => Seq::empty(),
        }
    }
}

/// `serde_json::Value`, the tree of values that a JSON text is parsed into.
#[verifier::external_type_specification]
#[verifier::external_body]
pub struct ExValue(serde_json::Value);

/// What the tree `value` holds. `serde_json` keeps an integer as a `u64` or, where
/// it is below zero, as an `i64`; [`Json::Int`] stands for both.
pub uninterp spec fn contents(value: serde_json::Value) -> Json;

/// `serde_json::Value::as_bool`: the boolean that the value is, if it is one.
pub assume_specification[ serde_json::Value::as_bool ](value: &serde_json::Value) -> (r: Option<
    bool,
>)
    ensures
        r == contents(*value).as_bool(),
;

/// `serde_json::Value::as_i64`: the integer that the value is, if it is one and
/// fits; a number that was not written as an integer gives nothing.
pub assume_specification[ serde_json::Value::as_i64 ](value: &serde_json::Value) -> (r: Option<i64>)
    ensures
        r == contents(*value).as_i64(),
;

/// `serde_json::Value::as_u64`: the integer that the value is, if it is one and
/// fits; a negative one gives nothing.
pub assume_specification[ serde_json::Value::as_u64 ](value: &serde_json::Value) -> (r: Option<u64>)
    ensures
        r == contents(*value).as_u64(),
;

/// `serde_json::Value::as_str`: the string that the value is, if it is one.
pub assume_specification[ serde_json::Value::as_str ](value: &serde_json::Value) -> (r: Option<&str>)
    ensures
        r is Some <==> contents(*value) is Str,
        r matches Some(s) ==> contents(*value) == Json::Str(s@),
;

/// `serde_json::Value::as_array`: the items of the array that the value is, in
/// their order, if it is one.
pub assume_specification[ serde_json::Value::as_array ](value: &serde_json::Value) -> (r: Option<
    &Vec<serde_json::Value>,
>)
    ensures
        r is Some <==> contents(*value) is Array,
        r matches Some(items) ==> contents(*value) == Json::Array(
            items@.map_values(|item: serde_json::Value| contents(item)),
        ),
;

/// `serde_json::Value::is_null`: whether the value is null.
pub assume_specification[ serde_json::Value::is_null ](value: &serde_json::Value) -> (r: bool)
    ensures
        r == (contents(*value) is Null),
;

/// `serde_json::Value::get` with a string: the member of that name, if the value
/// is an object that has it.
#[verifier::external_body]
pub(crate) fn get<'a>(value: &'a serde_json::Value, key: &str) -> (r: Option<&'a serde_json::Value>)
    ensures
        r is Some <==> contents(*value).member(key@) is Some,
        r matches Some(member) ==> contents(*value).member(key@) == Some(contents(*member)),
{
    value.get(key)
}

/// The member `key` of `value`, where it is there and not null.
pub fn present_at<'a>(value: &'a serde_json::Value, key: &str) -> (r: Option<&'a serde_json::Value>)
    ensures
        r is Some <==> contents(*value).present(key@) is Some,
        r matches Some(member) ==> contents(*value).present(key@) == Some(contents(*member)),
{
    match get(value, key) {
        Some(member) => if member.is_null() {
            None
        } else {
            Some(member)
        },
        None => None,
    }
}

/// Whether the member `key` of `value` is the boolean true.
pub fn flag_at(value: &serde_json::Value, key: &str) -> (r: bool)
    ensures
        r == contents(*value).flag_at(key@),
{
    match get(value, key) {
        Some(member) => match member.as_bool() {
            Some(b) => b,
            None => false,
        },
        None => false,
    }
}

/// The member `key` of `value` as an `i64`, 0 where it is none.
pub fn i64_at(value: &serde_json::Value, key: &str) -> (r: i64)
    ensures
        r == contents(*value).i64_at(key@),
{
    match get(value, key) {
        Some(member) => member.as_i64().unwrap_or(0),
        None => 0,
    }
}

/// The member `key` of `value` as a `u64`, 0 where it is none.
pub fn u64_at(value: &serde_json::Value, key: &str) -> (r: u64)
    ensures
        r == contents(*value).u64_at(key@),
{
    match get(value, key) {
        Some(member) => member.as_u64().unwrap_or(0),
        None => 0,
    }
}

/// The member `key` of `value`, where it is a string.
pub fn str_at(value: &serde_json::Value, key: &str) -> (r: Option<String>)
    ensures
        r is Some <==> contents(*value).str_at(key@) is Some,
        r matches Some(s) ==> contents(*value).str_at(key@) == Some(s@),
{
    match get(value, key) {
        Some(member) => match member.as_str() {
            Some(s) => Some(s.to_owned()),
            None => None,
        },
        None => None,
    }
}

/// The items of the member `key` of `value`, where it is an array.
pub fn items_at<'a>(value: &'a serde_json::Value, key: &str) -> (r: Option<&'a Vec<serde_json::Value>>)
    ensures
        r is Some <==> (contents(*value).member(key@) matches Some(member) && member is Array),
        r matches Some(items) ==> contents(*value).items_at(key@) == items@.map_values(
            |item: serde_json::Value| contents(item),
        ),
        r is None ==> contents(*value).items_at(key@).len() == 0,
{
    match get(value, key) {
        Some(member) => member.as_array(),
        None => None,
    }
}

/// A member is read as what it is: an integer that fits as itself, anything else as 0; true as true,
/// anything else as false; a string as its characters; an array as its items; and null as absent.
pub proof fn members_are_read_as_they_are(
    members: Map<Seq<char>, Json>,
    key: Seq<char>,
    value: Json,
    n: int,
    s: Seq<char>,
    items: Seq<Json>,
)
    requires
        members.contains_key(key),
        members[key] == value,
    ensures
        value == Json::Int(n) && i64::MIN <= n <= i64::MAX ==> Json::Object(members).i64_at(key) == n,
        value == Json::Int(n) && !(i64::MIN <= n <= i64::MAX) ==> Json::Object(members).i64_at(key)
            == 0,
        !(value is Int) ==> Json::Object(members).i64_at(key) == 0,
        value == Json::Int(n) && 0 <= n <= u64::MAX ==> Json::Object(members).u64_at(key) == n,
        value == Json::Int(n) && !(0 <= n <= u64::MAX) ==> Json::Object(members).u64_at(key) == 0,
        !(value is Int) ==> Json::Object(members).u64_at(key) == 0,
        Json::Object(members).flag_at(key) <==> value == Json::Bool(true),
        value == Json::Str(s) ==> Json::Object(members).str_at(key) == Some(s),
        !(value is Str) ==> Json::Object(members).str_at(key) is None,
        value == Json::Array(items) ==> Json::Object(members).items_at(key) == items,
        !(value is Array) ==> Json::Object(members).items_at(key).len() == 0,
        value is Null ==> Json::Object(members).present(key) is None,
        !(value is Null) ==> Json::Object(members).present(key) == Some(value),
{
}

/// What is no object has no members, and a member that is missing is read as 0, false, or absent.
pub proof fn missing_members_are_absent(value: Json, key: Seq<char>)
    requires
        value matches Json::Object(members) ==> !members.contains_key(key),
    ensures
        value.i64_at(key) == 0,
        value.u64_at(key) == 0,
        !value.flag_at(key),
        value.str_at(key) is None,
        value.items_at(key).len() == 0,
        value.present(key) is None,
{
}

}
