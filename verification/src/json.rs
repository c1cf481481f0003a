//! JSON documents received from upstream services, and what the services
//! read out of them.

use vstd::prelude::*;
use crate::error::AppError;

verus! {

/// A JSON value. An object keeps its members in order, each key once; a
/// number keeps the text in which it was written.
#[derive(Debug)]
pub enum JsonValue {
    Null,
    Bool(bool),
    Number(String),
    Str(String),
    Array(Vec<JsonValue>),
    Object(Vec<JsonMember>),
}

/// A member of a JSON object: its key and its value.
#[derive(Debug)]
pub struct JsonMember {
    pub key: String,
    pub value: JsonValue,
}

/// The value of the first member named `key`.
pub open spec fn member_value(members: Seq<JsonMember>, key: Seq<char>) -> Option<JsonValue>
    decreases members.len(),
{
    if members.len() == 0 {
        None
    } else if members[0].key@ == key {
        Some(members[0].value)
    } else {
        member_value(members.drop_first(), key)
    }
}

/// The member `key` of an object (`Value::get` with a key); `None` for a
/// value that is not an object or has no such member.
pub open spec fn json_get(v: JsonValue, key: Seq<char>) -> Option<JsonValue> {
    match v {
        JsonValue::Object(members) => member_value(members@, key),
        _ => None,
    }
}

/// The element `i` of an array (`Value::get` with an index); `None` for a
/// value that is not an array or too short.
pub open spec fn json_at(v: JsonValue, i: int) -> Option<JsonValue> {
    match v {
        JsonValue::Array(items) => if 0 <= i < items@.len() {
            Some(items@[i])
        } else {
            None
        },
        _ => None,
    }
}

/// The member `key` of an object, or `null` (`value[key]`).
pub open spec fn json_field(v: JsonValue, key: Seq<char>) -> JsonValue {
    match json_get(v, key) {
        Some(x) => x,
        None => JsonValue::Null,
    }
}

/// The text of a string value (`Value::as_str`).
pub open spec fn json_text(v: JsonValue) -> Option<Seq<char>> {
    match v {
        JsonValue::Str(s) => Some(s@),
        _ => None,
    }
}

/// The member `key` of an object, looked up in an optional value.
pub open spec fn opt_get(v: Option<JsonValue>, key: Seq<char>) -> Option<JsonValue> {
    match v {
        Some(x) => json_get(x, key),
        None => None,
    }
}

/// The member named `key` of an object.
pub fn get<'a>(v: &'a JsonValue, key: &str) -> (r: Option<&'a JsonValue>)
    ensures
        match json_get(*v, key@) {
            Some(x) => r matches Some(y) && *y == x,
            None => r is None,
        },
{
    match v {
        JsonValue::Object(members) => {
            let k = String::from_str(key);
            let mut i: usize = 0;
            assert(members@.skip(0) =~= members@);
            while i < members.len()
                invariant
                    i <= members@.len(),
                    k@ == key@,
                    json_get(*v, key@) == member_value(members@, key@),
                    member_value(members@, key@) == member_value(members@.skip(i as int), key@),
                decreases members@.len() - i,
            {
                assert(members@.skip(i as int).drop_first() =~= members@.skip(i + 1));
                assert(members@.skip(i as int)[0] == members@[i as int]);
                if members[i].key == k {
                    return Some(&members[i].value);
                }
                i = i + 1;
            }
            None
        },
        _ => None,
    }
}

/// The element `i` of an array.
pub fn at<'a>(v: &'a JsonValue, i: usize) -> (r: Option<&'a JsonValue>)
    ensures
        match json_at(*v, i as int) {
            Some(x) => r matches Some(y) && *y == x,
            None => r is None,
        },
{
    match v {
        JsonValue::Array(items) => if i < items.len() {
            Some(&items[i])
        } else {
            None
        },
        _ => None,
    }
}

/// The member named `key` of an object, or `null`.
pub fn field<'a>(v: &'a JsonValue, key: &str) -> (r: &'a JsonValue)
    ensures
        *r == json_field(*v, key@),
{
    match get(v, key) {
        Some(x) => x,
        None => &JsonValue::Null,
    }
}

/// The text of a string value.
pub fn text(v: &JsonValue) -> (r: Option<String>)
    ensures
        match json_text(*v) {
            Some(t) => r matches Some(s) && s@ == t,
            None => r is None,
        },
{
    match v {
        JsonValue::Str(s) => Some(s.clone()),
        _ => None,
    }
}

/// The message text of the first choice of a chat completion answer:
/// `choices[0].message.content`.
pub open spec fn completion_text(v: JsonValue) -> Option<Seq<char>> {
    match json_get(v, "choices"@) {
        Some(choices) => match opt_get(opt_get(json_at(choices, 0), "message"@), "content"@) {
            Some(content) => json_text(content),
            None => None,
        },
        None => None,
    }
}

/// The message text of a chat completion answer; an invalid-upstream error
/// when the answer has none.
pub fn completion_content(answer: &JsonValue) -> (r: Result<String, AppError>)
    ensures
        match completion_text(*answer) {
            Some(t) => r matches Ok(s) && s@ == t,
            None => r matches Err(AppError::InvalidUpstream(m)) && m@
                == "missing choices[0].message.content"@,
        },
{
    let found = match get(answer, "choices") {
        Some(choices) => match at(choices, 0) {
            Some(choice) => match get(choice, "message") {
                Some(message) => match get(message, "content") {
                    Some(content) => text(content),
                    None => None,
                },
                None => None,
            },
            None => None,
        },
        None => None,
    };
    match found {
        Some(s) => Ok(s),
        None => Err(AppError::InvalidUpstream(String::from_str("missing choices[0].message.content"))),
    }
}


/// The element `i` of an array, or `null` (`value[i]`).
pub open spec fn json_item(v: JsonValue, i: int) -> JsonValue {
    match json_at(v, i) {
        Some(x) => x,
        None => JsonValue::Null,
    }
}

/// Takes the member named `key` out of a value, or `null` when there is none.
pub fn into_field(v: JsonValue, key: &str) -> (r: JsonValue)
    ensures
        r == json_field(v, key@),
{
    let ghost target = json_field(v, key@);
    match v {
        JsonValue::Object(mut members) => {
            let ghost all = members@;
            let k = String::from_str(key);
            let mut i: usize = 0;
            assert(members@.skip(0) =~= members@);
            while i < members.len()
                invariant
                    i <= members@.len(),
                    members@ == all,
                    k@ == key@,
                    target == json_field(v, key@),
                    target == match member_value(all, key@) {
                        Some(x) => x,
                        None => JsonValue::Null,
                    },
                    member_value(all, key@) == member_value(all.skip(i as int), key@),
                decreases members@.len() - i,
            {
                assert(all.skip(i as int).drop_first() =~= all.skip(i + 1));
                assert(all.skip(i as int)[0] == all[i as int]);
                if members[i].key == k {
                    let m = members.swap_remove(i);
                    return m.value;
                }
                i = i + 1;
            }
            JsonValue::Null
        },
        _ => JsonValue::Null,
    }
}

/// Takes the element `i` out of a value, or `null` when there is none.
pub fn into_item(v: JsonValue, i: usize) -> (r: JsonValue)
    ensures
        r == json_item(v, i as int),
{
    match v {
        JsonValue::Array(mut items) => if i < items.len() {
            items.swap_remove(i)
        } else {
            JsonValue::Null
        },
        _ => JsonValue::Null,
    }
}

/// A JSON string value.
pub fn string_value(s: &str) -> (r: JsonValue)
    ensures
        r matches JsonValue::Str(t) && t@ == s@,
{
    JsonValue::Str(String::from_str(s))
}

/// An object member with a string value.
pub fn text_member(key: &str, value: &str) -> (r: JsonMember)
    ensures
        r.key@ == key@,
        r.value matches JsonValue::Str(t) && t@ == value@,
{
    JsonMember { key: String::from_str(key), value: string_value(value) }
}

/// The value is an object of exactly these members, in order, each with a
/// string value.
pub open spec fn is_text_object(v: JsonValue, members: Seq<(Seq<char>, Seq<char>)>) -> bool {
    &&& v matches JsonValue::Object(ms)
    &&& ms@.len() == members.len()
    &&& forall|i: int|
        0 <= i < members.len() ==> (#[trigger] ms@[i]).key@ == members[i].0 && json_text(ms@[i].value)
            == Some(members[i].1)
}

} // verus!
