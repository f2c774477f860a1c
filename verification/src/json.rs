//! JSON replies of web services: a value type the library can read, the
//! parse and the written form that `serde_json` provides for it, and the
//! lookups that replies are read with.
use serde_json::Value;
use vstd::prelude::*;
use crate::strings::str_eq;

verus! {

/// A JSON value. Numbers are kept as their written form; an object keeps
/// its members in the order the parser hands them over.
pub enum Json {
    Null,
    Bool(bool),
    Number(String),
    Str(String),
    Array(Vec<Json>),
    Object(Vec<(String, Json)>),
}

/// `serde_json::Value`, held as an opaque value inside the conversions.
#[verifier::external_type_specification]
#[verifier::external_body]
pub struct ExJsonValue(Value);

/// What `serde_json::from_str::<Value>` makes of a text, as a `Json`:
/// `None` where the text is not one JSON value.
pub uninterp spec fn json_parse(text: Seq<char>) -> Option<Json>;

/// The compact written form that `Value`'s `to_string` gives the value a
/// `Json` stands for.
pub uninterp spec fn json_text(value: Json) -> Seq<char>;

/// Turns a parsed `serde_json::Value` into the same value as a `Json`, one
/// variant for one, numbers by their written form. Nothing is stated of it;
/// only `parse_json` calls it.
#[verifier::external_body]
fn json_of_value(v: &Value) -> Json {
    match v {
        Value::Null => Json::Null,
        Value::Bool(b) => Json::Bool(*b),
        Value::Number(n) => Json::Number(n.to_string()),
        Value::String(s) => Json::Str(s.clone()),
        Value::Array(items) => Json::Array(items.iter().map(json_of_value).collect()),
        Value::Object(map) => Json::Object(
            map.iter().map(|(k, x)| (k.clone(), json_of_value(x))).collect(),
        ),
    }
}

/// Turns a `Json` back into a `serde_json::Value`, one variant for one; a
/// number is read back from its written form, and one that cannot be read
/// becomes `Null`. Nothing is stated of it; only `json_to_string` calls it.
#[verifier::external_body]
fn value_of_json(j: &Json) -> Value {
    match j {
        Json::Null => Value::Null,
        Json::Bool(b) => Value::Bool(*b),
        Json::Number(n) => n.parse::<serde_json::Number>().map(Value::Number).unwrap_or(Value::Null),
        Json::Str(s) => Value::String(s.clone()),
        Json::Array(items) => Value::Array(items.iter().map(value_of_json).collect()),
        Json::Object(members) => Value::Object(
            members.iter().map(|(k, x)| (k.clone(), value_of_json(x))).collect(),
        ),
    }
}

/// `serde_json::from_str::<Value>`: parses a text as one JSON value. The
/// contract names the result `json_parse` of the text; the JSON grammar is
/// left unstated.
#[verifier::external_body]
pub(crate) fn parse_json(text: &str) -> (r: Option<Json>)
    ensures
        r == json_parse(text@),
{
    serde_json::from_str::<Value>(text).ok().map(|v| json_of_value(&v))
}

/// `Value`'s `to_string`: the compact written form of a JSON value. The
/// contract names the result `json_text` of the value; the escaping rules
/// are left unstated.
#[verifier::external_body]
pub(crate) fn json_to_string(value: &Json) -> (r: String)
    ensures
        r@ == json_text(*value),
{
    value_of_json(value).to_string()
}

/// The value of the first member named `key`.
pub open spec fn member_lookup(members: Seq<(String, Json)>, key: Seq<char>) -> Option<Json>
    decreases members.len(),
{
    if members.len() == 0 {
        None
    } else if members[0].0@ == key {
        Some(members[0].1)
    } else {
        member_lookup(members.subrange(1, members.len() as int), key)
    }
}

/// What `Value::get` with a key gives: the member named `key` of an
/// object, `None` for anything else.
pub open spec fn json_get(v: Json, key: Seq<char>) -> Option<Json> {
    match v {
        Json::Object(members) => member_lookup(members@, key),
        _ => None,
    }
}

/// What indexing a `Value` with a number gives: the element of an array,
/// or `null` where there is none.
pub open spec fn json_at(v: Json, i: int) -> Json {
    match v {
        Json::Array(items) => if 0 <= i < items@.len() {
            items@[i]
        } else {
            Json::Null
        },
        _ => Json::Null,
    }
}

/// The member named `key` of an object; `None` when there is none or `v`
/// is no object.
pub fn json_member<'a>(v: &'a Json, key: &str) -> (r: Option<&'a Json>)
    ensures
        r is None <==> json_get(*v, key@) is None,
        r matches Some(x) ==> json_get(*v, key@) == Some(*x),
{
    match v {
        Json::Object(members) => {
            let mut i: usize = 0;
            assert(members@.subrange(0, members@.len() as int) =~= members@);
            while i < members.len()
                invariant
                    json_get(*v, key@) == member_lookup(members@, key@),
                    i <= members@.len(),
                    member_lookup(members@, key@) == member_lookup(
                        members@.subrange(i as int, members@.len() as int),
                        key@,
                    ),
                decreases members.len() - i,
            {
                let ghost rest = members@.subrange(i as int, members@.len() as int);
                assert(rest[0] == members@[i as int]);
                assert(rest.subrange(1, rest.len() as int) =~= members@.subrange(
                    i + 1,
                    members@.len() as int,
                ));
                if str_eq(members[i].0.as_str(), key) {
                    return Some(&members[i].1);
                }
                i = i + 1;
            }
            None
        },
        _ => None,
    }
}

/// The element at `i` of an array; `None` where indexing gives `null`
/// because there is none.
pub fn json_element<'a>(v: &'a Json, i: usize) -> (r: Option<&'a Json>)
    ensures
        r is None ==> json_at(*v, i as int) == Json::Null,
        r matches Some(x) ==> json_at(*v, i as int) == *x,
{
    match v {
        Json::Array(items) => {
            if i < items.len() {
                Some(&items[i])
            } else {
                None
            }
        },
        _ => None,
    }
}

} // verus!
