use vstd::prelude::*;

use crate::text::{decimal_whole, whole_of_decimal};

verus! {

/// A JSON document as the parsers of this library read it. A number holds its value when
/// it is an integer that fits in an `i64` (`None` otherwise), and its text as `serde_json`
/// writes it. An object holds its members in the order of their keys, each key once.
#[derive(Debug)]
pub enum Json {
    Null,
    Bool(bool),
    Number(Option<i64>, String),
    Str(String),
    Array(Vec<Json>),
    Object(Vec<(String, Json)>),
}

/// A parsed JSON document of `serde_json`, carried through unread.
#[verifier::external_type_specification]
#[verifier::external_body]
pub struct ExValue(serde_json::Value);

/// The document that the JSON text `s` denotes, or `None` where `s` is not JSON.
pub uninterp spec fn json_of_text(s: Seq<char>) -> Option<Json>;

/// Relies on `serde_json::from_str` into `serde_json::Value`: the document that the text
/// denotes, `None` on a syntax error.
#[verifier::external_body]
pub(crate) fn parse_json_text(text: &str) -> (r: Option<Json>)
    ensures
        r == json_of_text(text@),
{
    match serde_json::from_str::<serde_json::Value>(text) {
        Ok(v) => Some(json_from_value(&v)),
        Err(_) => None,
    }
}

/// Relies on the variants of `serde_json::Value`, on `serde_json::Number::as_i64` and on
/// the `Display` of `serde_json::Number`, to copy a parsed document into a `Json`.
#[verifier::external_body]
fn json_from_value(v: &serde_json::Value) -> Json {
    match v {
        serde_json::Value::Null => Json::Null,
        serde_json::Value::Bool(b) => Json::Bool(*b),
        serde_json::Value::Number(n) => Json::Number(n.as_i64(), n.to_string()),
        serde_json::Value::String(s) => Json::Str(s.clone()),
        serde_json::Value::Array(a) => Json::Array(a.iter().map(json_from_value).collect()),
        serde_json::Value::Object(o) => Json::Object(
            o.iter().map(|(k, x)| (k.clone(), json_from_value(x))).collect(),
        ),
    }
}

/// The value of the first member of `es` whose key is `key`.
pub open spec fn member(es: Seq<(String, Json)>, key: Seq<char>) -> Option<Json>
    decreases es.len(),
{
    if es.len() == 0 {
        None
    } else if es[0].0@ == key {
        Some(es[0].1)
    } else {
        member(es.drop_first(), key)
    }
}

/// The member `key` of `j`, where `j` is an object that has one.
pub open spec fn field(j: Json, key: Seq<char>) -> Option<Json> {
    match j {
        Json::Object(es) => member(es@, key),
        _ => None,
    }
}

/// The value of `j` where it is an integer that fits in an `i64`.
pub open spec fn int_of(j: Option<Json>) -> Option<i64> {
    match j {
        Some(Json::Number(Some(n), _)) => Some(n),
        _ => None,
    }
}

/// The text of `j` where it is a string.
pub open spec fn str_of(j: Option<Json>) -> Option<Seq<char>> {
    match j {
        Some(Json::Str(s)) => Some(s@),
        _ => None,
    }
}

/// The elements of `j` where it is an array.
pub open spec fn array_of(j: Option<Json>) -> Option<Seq<Json>> {
    match j {
        Some(Json::Array(a)) => Some(a@),
        _ => None,
    }
}

/// The members of `j` where it is an object.
pub open spec fn object_of(j: Option<Json>) -> Option<Seq<(String, Json)>> {
    match j {
        Some(Json::Object(es)) => Some(es@),
        _ => None,
    }
}

/// The integer member `key` of `j`, or `default` where it is missing or not an integer.
pub open spec fn int_field_or(j: Json, key: Seq<char>, default: i64) -> i64 {
    match int_of(field(j, key)) {
        Some(n) => n,
        None => default,
    }
}

/// Whether two strings are equal.
pub fn str_eq(a: &str, b: &str) -> (r: bool)
    ensures
        r == (a@ == b@),
{
    let n = a.unicode_len();
    if n != b.unicode_len() {
        return false;
    }
    let mut i: usize = 0;
    while i < n
        invariant
            i <= n,
            n == a@.len(),
            n == b@.len(),
            forall|j: int| 0 <= j < i ==> a@[j] == b@[j],
        decreases n - i,
    {
        if a.get_char(i) != b.get_char(i) {
            return false;
        }
        i = i + 1;
    }
    assert(a@ =~= b@);
    true
}

/// The member `key` of `j`, where `j` is an object that has one.
pub fn get_field<'a>(j: &'a Json, key: &str) -> (r: Option<&'a Json>)
    ensures
        r matches Some(v) ==> field(*j, key@) == Some(*v),
        r is None ==> field(*j, key@) is None,
{
    match j {
        Json::Object(es) => {
            let mut i: usize = 0;
            assert(es@.subrange(0, es@.len() as int) =~= es@);
            while i < es.len()
                invariant
                    i <= es@.len(),
                    field(*j, key@) == member(es@, key@),
                    member(es@, key@) == member(es@.subrange(i as int, es@.len() as int), key@),
                decreases es@.len() - i,
            {
                let ghost rest = es@.subrange(i as int, es@.len() as int);
                assert(rest.drop_first() =~= es@.subrange(i + 1, es@.len() as int));
                assert(rest[0] == es@[i as int]);
                let entry = &es[i];
                assert(*entry == rest[0]);
                if str_eq(entry.0.as_str(), key) {
                    assert(member(rest, key@) == Some(entry.1));
                    return Some(&entry.1);
                }
                i = i + 1;
            }
            None
        },
        _ => None,
    }
}

/// The value of `j` where it is present and an integer that fits in an `i64`.
pub fn as_int(j: Option<&Json>) -> (r: Option<i64>)
    ensures
        r == int_of(
            match j {
                Some(v) => Some(*v),
                None => None,
            },
        ),
{
    match j {
        Some(Json::Number(Some(n), _)) => Some(*n),
        _ => None,
    }
}

/// The integer member `key` of `j`, or `default` where it is missing or not an integer.
pub fn int_field(j: &Json, key: &str, default: i64) -> (r: i64)
    ensures
        r == int_field_or(*j, key@, default),
{
    match as_int(get_field(j, key)) {
        Some(n) => n,
        None => default,
    }
}

/// The whole part of number `j`, rounded toward zero: its value where it is an integer that
/// fits in an `i64`, else the whole part of its text where that is plain decimal and fits.
pub open spec fn whole_of(j: Option<Json>) -> Option<int> {
    match j {
        Some(Json::Number(Some(n), _)) => Some(n as int),
        Some(Json::Number(None, t)) => decimal_whole(t@),
        _ => None,
    }
}

/// The whole part of number member `key` of `j`, or `default` where it is missing, not a
/// number, or its whole part cannot be read.
pub open spec fn whole_field_or(j: Json, key: Seq<char>, default: i64) -> int {
    match whole_of(field(j, key)) {
        Some(n) => n,
        None => default as int,
    }
}

/// The whole part of number member `key` of `j`, or `default` where it is missing, not a
/// number, or its whole part cannot be read.
pub fn whole_field(j: &Json, key: &str, default: i64) -> (r: i64)
    ensures
        r as int == whole_field_or(*j, key@, default),
{
    match get_field(j, key) {
        Some(Json::Number(Some(n), _)) => *n,
        Some(Json::Number(None, t)) => match whole_of_decimal(t.as_str()) {
            Some(v) => v,
            None => default,
        },
        _ => default,
    }
}

} // verus!
