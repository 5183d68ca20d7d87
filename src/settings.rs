//! The editor's settings as plain values: a JSON document, and what the server reads
//! from it.
use vstd::prelude::*;

verus! {

/// A JSON value. Numbers are kept without their value, which no setting reads.
#[derive(Debug)]
pub enum JsonValue {
    Null,
    Bool(bool),
    Number,
    Text(String),
    Array(Vec<JsonValue>),
    Object(Vec<JsonMember>),
}

/// A member of a JSON object.
#[derive(Debug)]
pub struct JsonMember {
    pub key: String,
    pub value: JsonValue,
}

/// The value of the first member of `ms` named `key`.
pub open spec fn first_member(ms: Seq<JsonMember>, key: Seq<char>) -> Option<JsonValue>
    decreases ms.len(),
{
    if ms.len() == 0 {
        None
    } else if ms[0].key@ == key {
        Some(ms[0].value)
    } else {
        first_member(ms.subrange(1, ms.len() as int), key)
    }
}

/// The member `key` of `v`, when `v` is an object that has one.
pub open spec fn member_of(v: JsonValue, key: Seq<char>) -> Option<JsonValue> {
    match v {
        JsonValue::Object(ms) => first_member(ms@, key),
        _ => None,
    }
}

/// The strings among `items`, in order.
pub open spec fn text_entries(items: Seq<JsonValue>) -> Seq<Seq<char>>
    decreases items.len(),
{
    if items.len() == 0 {
        Seq::empty()
    } else {
        let prior = text_entries(items.drop_last());
        match items.last() {
            JsonValue::Text(s) => prior.push(s@),
            _ => prior,
        }
    }
}

/// The elements of the array member `key` of `v`; none when `v` is absent, is not an
/// object, or has no such array.
pub open spec fn array_member(v: Option<JsonValue>, key: Seq<char>) -> Seq<JsonValue> {
    match v {
        Some(o) => match member_of(o, key) {
            Some(JsonValue::Array(a)) => a@,
            _ => Seq::empty(),
        },
        None => Seq::empty(),
    }
}

/// The string member `key` of `v`, if there is one.
pub open spec fn text_member(v: Option<JsonValue>, key: Seq<char>) -> Option<Seq<char>> {
    match v {
        Some(o) => match member_of(o, key) {
            Some(JsonValue::Text(s)) => Some(s@),
            _ => None,
        },
        None => None,
    }
}

/// The search paths of a project object: the strings of its `paths` array, in order.
pub open spec fn project_paths_of(v: JsonValue) -> Seq<Seq<char>> {
    text_entries(array_member(Some(v), "paths"@))
}

/// The built-in flag of a project object: its `addWellKnownTypes` boolean, `true`
/// when that is missing or not a boolean.
pub open spec fn built_in_flag_of(v: JsonValue) -> bool {
    match member_of(v, "addWellKnownTypes"@) {
        Some(JsonValue::Bool(b)) => b,
        _ => true,
    }
}

/// The member `key` of `v`, when `v` is an object that has one.
pub fn json_member<'a>(v: &'a JsonValue, key: &str) -> (r: Option<&'a JsonValue>)
    ensures
        match r {
            Some(x) => member_of(*v, key@) == Some(*x),
            None => member_of(*v, key@) is None,
        },
{
    match v {
        JsonValue::Object(ms) => {
            let wanted = String::from_str(key);
            assert(ms@.subrange(0, ms@.len() as int) =~= ms@);
            let mut i: usize = 0;
            while i < ms.len()
                invariant
                    i <= ms@.len(),
                    wanted@ == key@,
                    member_of(*v, key@) == first_member(ms@, key@),
                    first_member(ms@, key@) == first_member(ms@.subrange(i as int, ms@.len() as int), key@),
                decreases ms@.len() - i,
            {
                let ghost rest = ms@.subrange(i as int, ms@.len() as int);
                assert(rest[0] == ms@[i as int]);
                if ms[i].key == wanted {
                    assert(rest.len() > 0 && rest[0].key@ == key@);
                    assert(first_member(rest, key@) == Some(ms@[i as int].value));
                    return Some(&ms[i].value);
                }
                assert(rest.subrange(1, rest.len() as int) =~= ms@.subrange(i + 1, ms@.len() as int));
                i = i + 1;
            }
            None
        },
        _ => None,
    }
}

/// The elements of the array member `key` of `v`, as `array_member` states.
pub fn json_array_member<'a>(v: Option<&'a JsonValue>, key: &str) -> (r: Option<&'a Vec<JsonValue>>)
    ensures
        match r {
            Some(a) => a@ == array_member(
                match v {
                    Some(o) => Some(*o),
                    None => None,
                },
                key@,
            ),
            None => array_member(
                match v {
                    Some(o) => Some(*o),
                    None => None,
                },
                key@,
            ) == Seq::<JsonValue>::empty(),
        },
{
    match v {
        Some(o) => match json_member(o, key) {
            Some(JsonValue::Array(a)) => Some(a),
            _ => None,
        },
        None => None,
    }
}

} // verus!
