//! A JSON document as the report reader sees it.
//!
//! Objects keep their members in the order in which the JSON reader hands them out.
//! Numbers carry, as integers, the readings that the report makes of them.
use vstd::prelude::*;
use crate::text::text_eq;

verus! {

broadcast use vstd::string::group_string_axioms;

/// A JSON number, held as the integer readings that the report takes of it.
pub struct JsonNumber {
    /// The number when it is a non-negative integer that fits in a `u64`.
    pub as_u64: Option<u64>,
    /// The number clamped at zero, rounded to the nearest integer and saturated to `u64`.
    pub rounded: u64,
    /// The number times one million, rounded to the nearest integer and saturated to `i64`
    /// (a dollar amount in micro-dollars).
    pub millionths: i64,
}

/// A JSON string, with the dollar reading of its text.
pub struct JsonText {
    pub text: String,
    /// When the text reads as a decimal floating-point number: that number times one
    /// million, rounded and saturated to `i64`.
    pub millionths: Option<i64>,
}

/// One member of a JSON object.
pub struct JsonMember {
    pub key: String,
    pub value: JsonValue,
}

/// A JSON value.
pub enum JsonValue {
    Null,
    Bool(bool),
    Number(JsonNumber),
    Text(JsonText),
    Array(Vec<JsonValue>),
    Object(Vec<JsonMember>),
}

/// The value of the first member named `key`.
pub open spec fn member_value(members: Seq<JsonMember>, key: Seq<char>) -> Option<JsonValue>
    decreases members.len(),
{
    if members.len() == 0 {
        None
    } else if members[0].key@ == key {
        Some(members[0].value)
    } else {
        member_value(members.drop_first(), key)
    }
}

/// What indexing a JSON value by a key gives: the member's value for an object, nothing
/// for any other value.
pub open spec fn json_get(v: JsonValue, key: Seq<char>) -> Option<JsonValue> {
    match v {
        JsonValue::Object(members) => member_value(members@, key),
        _ => None,
    }
}

impl JsonValue {
    /// The value under `key`, when `self` is an object that has it.
    pub fn get(&self, key: &str) -> (res: Option<&JsonValue>)
        ensures
            match res {
                Some(r) => json_get(*self, key@) == Some(*r),
                None => json_get(*self, key@) is None,
            },
    {
        match self {
            JsonValue::Object(members) => {
                let mut i: usize = 0;
                assert(members@.skip(0) == members@);
                while i < members.len()
                    invariant
                        i <= members.len(),
                        *self == JsonValue::Object(*members),
                        member_value(members@, key@) == member_value(members@.skip(i as int), key@),
                    decreases members.len() - i,
                {
                    assert(members@.skip(i as int)[0] == members@[i as int]);
                    if text_eq(members[i].key.as_str(), key) {
                        assert(members@.skip(i as int)[0].key@ == key@);
                        assert(member_value(members@.skip(i as int), key@) == Some(members@[i as int].value));
                        return Some(&members[i].value);
                    }
                    assert(members@.skip(i as int).drop_first() == members@.skip(i + 1));
                    i = i + 1;
                }
                None
            },
            _ => None,
        }
    }

    /// The text, when `self` is a string.
    pub fn as_text(&self) -> (res: Option<&String>)
        ensures
            match res {
                Some(t) => *self matches JsonValue::Text(jt) && jt.text == *t,
                None => !(*self is Text),
            },
    {
        match self {
            JsonValue::Text(t) => Some(&t.text),
            _ => None,
        }
    }

    /// The items, when `self` is an array.
    pub fn as_array(&self) -> (res: Option<&Vec<JsonValue>>)
        ensures
            match res {
                Some(items) => *self == JsonValue::Array(*items),
                None => !(*self is Array),
            },
    {
        match self {
            JsonValue::Array(items) => Some(items),
            _ => None,
        }
    }
}

} // verus!
