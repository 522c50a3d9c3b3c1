//! Parsed JSON documents as plain values, and the lookups the npm readers
//! make on them.

use vstd::prelude::*;

use crate::text::str_eq;

verus! {

#[verifier::external_type_specification]
#[verifier::external_body]
pub struct ExJsonValue(serde_json::Value);

/// A parsed JSON value. A number is kept as its `u64` value when it is one;
/// objects hold their entries in key order.
#[derive(Debug, PartialEq, Eq)]
pub enum JsonValue {
    /// `null`.
    Null,
    /// A boolean.
    Bool(bool),
    /// A number, and its value when it is a non-negative integer that fits
    /// in a `u64`.
    Number(Option<u64>),
    /// A string.
    String(String),
    /// An array.
    Array(Vec<JsonValue>),
    /// An object.
    Object(Vec<(String, JsonValue)>),
}

/// The class of a JSON error.
#[derive(Clone, Copy, Debug, PartialEq, Eq, Structural)]
pub enum JsonErrorCategory {
    /// The input could not be read.
    Io,
    /// The input is not syntactically valid JSON.
    Syntax,
    /// The input is valid JSON of the wrong shape.
    Data,
    /// The input ended early.
    Eof,
}

/// A JSON parse error: its class and 1-based position.
#[derive(Clone, Copy, Debug, PartialEq, Eq, Structural)]
pub struct JsonError {
    /// The class.
    pub category: JsonErrorCategory,
    /// Line of the error.
    pub line: usize,
    /// Column of the error.
    pub column: usize,
}

/// The document `serde_json` parses from bytes, or its error.
pub uninterp spec fn spec_parse_json(bytes: Seq<u8>) -> Result<JsonValue, JsonError>;

/// Parses a JSON document (`serde_json::from_slice::<serde_json::Value>`),
/// keeping the error's category, line, and column. The outcome is a
/// function of the bytes.
#[verifier::external_body]
pub fn parse_json(bytes: &[u8]) -> (r: Result<JsonValue, JsonError>)
    ensures
        r == spec_parse_json(bytes@),
{
    match serde_json::from_slice::<serde_json::Value>(bytes) {
        Ok(v) => Ok(json_value_of(v)),
        Err(e) => Err(JsonError {
            category: match e.classify() {
                serde_json::error::Category::Io => JsonErrorCategory::Io,
                serde_json::error::Category::Syntax => JsonErrorCategory::Syntax,
                serde_json::error::Category::Data => JsonErrorCategory::Data,
                serde_json::error::Category::Eof => JsonErrorCategory::Eof,
            },
            line: e.line(),
            column: e.column(),
        }),
    }
}

/// Converts a `serde_json::Value` variant by variant.
#[verifier::external_body]
fn json_value_of(v: serde_json::Value) -> JsonValue {
    match v {
        serde_json::Value::Null => JsonValue::Null,
        serde_json::Value::Bool(b) => JsonValue::Bool(b),
        serde_json::Value::Number(n) => JsonValue::Number(n.as_u64()),
        serde_json::Value::String(s) => JsonValue::String(s),
        serde_json::Value::Array(a) => JsonValue::Array(a.into_iter().map(json_value_of).collect()),
        serde_json::Value::Object(o) => JsonValue::Object(o.into_iter().map(|(k, v)| (k, json_value_of(v))).collect()),
    }
}

/// The value of the first entry of `t` whose key is `key`.
pub open spec fn json_lookup(t: Seq<(String, JsonValue)>, key: Seq<char>) -> Option<JsonValue>
    decreases t.len(),
{
    if t.len() == 0 {
        None
    } else if t[0].0@ == key {
        Some(t[0].1)
    } else {
        json_lookup(t.drop_first(), key)
    }
}

/// The value at `key` of an object.
pub fn json_get<'a>(t: &'a Vec<(String, JsonValue)>, key: &str) -> (r: Option<&'a JsonValue>)
    ensures
        match (r, json_lookup(t@, key@)) {
            (Some(v), Some(w)) => *v == w,
            (None, None) => true,
            _ => false,
        },
{
    let mut i: usize = 0;
    assert(t@.skip(0) =~= t@);
    while i < t.len()
        invariant
            i <= t@.len(),
            json_lookup(t@, key@) == json_lookup(t@.skip(i as int), key@),
        decreases t@.len() - i,
    {
        assert(t@.skip(i as int).drop_first() =~= t@.skip(i + 1));
        if str_eq(t[i].0.as_str(), key) {
            return Some(&t[i].1);
        }
        i += 1;
    }
    None
}

/// The object at `key`, when it is one.
pub open spec fn json_object_at(t: Seq<(String, JsonValue)>, key: Seq<char>) -> Option<Seq<(String, JsonValue)>> {
    match json_lookup(t, key) {
        Some(JsonValue::Object(o)) => Some(o@),
        _ => None,
    }
}

/// The object at `key`, when it is one.
pub fn json_object<'a>(t: &'a Vec<(String, JsonValue)>, key: &str) -> (r: Option<&'a Vec<(String, JsonValue)>>)
    ensures
        match (r, json_object_at(t@, key@)) {
            (Some(v), Some(w)) => v@ == w,
            (None, None) => true,
            _ => false,
        },
{
    match json_get(t, key) {
        Some(JsonValue::Object(o)) => Some(o),
        _ => None,
    }
}

/// The string at `key`, when it is one.
pub open spec fn json_string_at(t: Seq<(String, JsonValue)>, key: Seq<char>) -> Option<Seq<char>> {
    match json_lookup(t, key) {
        Some(JsonValue::String(s)) => Some(s@),
        _ => None,
    }
}

/// The string at `key`, when it is one.
pub fn json_string(t: &Vec<(String, JsonValue)>, key: &str) -> (r: Option<String>)
    ensures
        match (r, json_string_at(t@, key@)) {
            (Some(v), Some(w)) => v@ == w,
            (None, None) => true,
            _ => false,
        },
{
    match json_get(t, key) {
        Some(JsonValue::String(s)) => Some(s.clone()),
        _ => None,
    }
}

} // verus!
