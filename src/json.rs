use vstd::prelude::*;

use crate::text::str_eq;

verus! {

/// A JSON value as the log lines carry it. A number keeps its value where it
/// is a whole number that fits in `u64`, and nothing else. An object keeps
/// its members in key order, each key once.
#[derive(Debug)]
pub enum JsonValue {
    Null,
    Bool(bool),
    Number(Option<u64>),
    Str(String),
    Array(Vec<JsonValue>),
    Object(Vec<(String, JsonValue)>),
}

#[verifier::external_type_specification]
#[verifier::external_body]
pub struct ExSerdeJsonValue(serde_json::Value);

/// The value that a line of text decodes to, or `None` where it is not JSON.
pub uninterp spec fn json_of(s: Seq<char>) -> Option<JsonValue>;

/// Relies on serde_json's `Value` variants: copies a decoded value into
/// `JsonValue`, variant for variant.
#[verifier::external_body]
fn json_from_value(v: &serde_json::Value) -> JsonValue {
    match v {
        serde_json::Value::Null => JsonValue::Null,
        serde_json::Value::Bool(b) => JsonValue::Bool(*b),
        serde_json::Value::Number(n) => JsonValue::Number(n.as_u64()),
        serde_json::Value::String(s) => JsonValue::Str(s.clone()),
        serde_json::Value::Array(a) => JsonValue::Array(a.iter().map(json_from_value).collect()),
        serde_json::Value::Object(m) => JsonValue::Object(
            m.iter().map(|(k, x)| (k.clone(), json_from_value(x))).collect(),
        ),
    }
}

/// Relies on serde_json::from_str: decodes one line of text, the result
/// depending on the text alone.
#[verifier::external_body]
pub fn parse_json(line: &str) -> (r: Option<JsonValue>)
    ensures
        r == json_of(line@),
{
    serde_json::from_str::<serde_json::Value>(line).ok().map(|v| json_from_value(&v))
}

/// The value of the first member of `members` named `key`.
pub open spec fn member_of(members: Seq<(String, JsonValue)>, key: Seq<char>) -> Option<JsonValue>
    decreases members.len(),
{
    if members.len() == 0 {
        None
    } else if members[0].0@ == key {
        Some(members[0].1)
    } else {
        member_of(members.drop_first(), key)
    }
}

/// The member `key` of an object; `None` for a missing member or a value
/// that is no object.
pub open spec fn field(v: JsonValue, key: Seq<char>) -> Option<JsonValue> {
    match v {
        JsonValue::Object(m) => member_of(m@, key),
        _ => None,
    }
}

/// The member `key` of `v`, where `v` is an object that has it.
pub fn get_field<'a>(v: &'a JsonValue, key: &str) -> (r: Option<&'a JsonValue>)
    ensures
        r.is_some() == field(*v, key@).is_some(),
        r.is_some() ==> *r.unwrap() == field(*v, key@).unwrap(),
{
    match v {
        JsonValue::Object(m) => {
            let mut i: usize = 0;
            assert(m@.subrange(0, m@.len() as int) =~= m@);
            while i < m.len()
                invariant
                    i <= m@.len(),
                    field(*v, key@) == member_of(m@, key@),
                    member_of(m@, key@) == member_of(m@.subrange(i as int, m@.len() as int), key@),
                decreases m@.len() - i,
            {
                assert(m@.subrange(i as int, m@.len() as int).drop_first() =~= m@.subrange(
                    i + 1,
                    m@.len() as int,
                ));
                assert(m@.subrange(i as int, m@.len() as int)[0] == m@[i as int]);
                if str_eq(m[i].0.as_str(), key) {
                    assert(member_of(m@.subrange(i as int, m@.len() as int), key@) == Some(
                        m@[i as int].1,
                    ));
                    return Some(&m[i].1);
                }
                i += 1;
            }
            None
        },
        _ => None,
    }
}

} // verus!
