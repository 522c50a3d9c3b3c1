//! Parsed TOML documents as plain values, and the lookups the manifest and
//! lockfile readers make on them.

use vstd::prelude::*;
use vstd::string::StringExecFns;

use crate::order::{is_sorted_dedup_of, lemma_sorted_dedup_is, sort_dedup_strings, sorted_dedup, views};
use crate::text::str_eq;

verus! {

#[verifier::external_type_specification]
#[verifier::external_body]
pub struct ExTomlValue(toml::Value);

/// A parsed TOML value. Floats are kept as a bare marker: no reader looks at
/// their value.
#[derive(Debug, PartialEq, Eq)]
pub enum TomlValue {
    /// A string.
    String(String),
    /// An integer.
    Integer(i64),
    /// A float.
    Float,
    /// A boolean.
    Boolean(bool),
    /// A date-time, as written.
    Datetime(String),
    /// An array, and its TOML rendering.
    Array(Vec<TomlValue>, String),
    /// A table, entries in key order, and its TOML rendering.
    Table(Vec<(String, TomlValue)>, String),
}

/// A TOML syntax or type error.
#[derive(Debug, PartialEq, Eq)]
pub struct TomlError {
    /// The parser's message.
    pub message: String,
    /// Byte offset where the error starts, when known.
    pub span_start: Option<usize>,
}

/// The document `toml` parses from a text, or its error.
pub uninterp spec fn spec_parse_toml(text: Seq<char>) -> Result<TomlValue, TomlError>;

/// Parses a TOML document (`toml::from_str::<toml::Value>`), keeping the
/// error's message and span start. The outcome is a function of the text.
#[verifier::external_body]
pub fn parse_toml(text: &str) -> (r: Result<TomlValue, TomlError>)
    ensures
        r == spec_parse_toml(text@),
{
    match toml::from_str::<toml::Value>(text) {
        Ok(v) => Ok(toml_value_of(v)),
        Err(e) => Err(TomlError { message: e.to_string(), span_start: e.span().map(|s| s.start) }),
    }
}

/// Converts a `toml::Value` variant by variant, keeping the `Display`
/// rendering of arrays and tables.
#[verifier::external_body]
fn toml_value_of(v: toml::Value) -> TomlValue {
    let text = v.to_string();
    match v {
        toml::Value::String(s) => TomlValue::String(s),
        toml::Value::Integer(i) => TomlValue::Integer(i),
        toml::Value::Float(_) => TomlValue::Float,
        toml::Value::Boolean(b) => TomlValue::Boolean(b),
        toml::Value::Datetime(d) => TomlValue::Datetime(d.to_string()),
        toml::Value::Array(a) => TomlValue::Array(a.into_iter().map(toml_value_of).collect(), text),
        toml::Value::Table(t) => TomlValue::Table(t.into_iter().map(|(k, v)| (k, toml_value_of(v))).collect(), text),
    }
}

/// The value of the first entry of `t` whose key is `key`.
pub open spec fn lookup(t: Seq<(String, TomlValue)>, key: Seq<char>) -> Option<TomlValue>
    decreases t.len(),
{
    if t.len() == 0 {
        None
    } else if t[0].0@ == key {
        Some(t[0].1)
    } else {
        lookup(t.drop_first(), key)
    }
}

/// The value at `key` of a table.
pub fn get<'a>(t: &'a Vec<(String, TomlValue)>, key: &str) -> (r: Option<&'a TomlValue>)
    ensures
        match (r, lookup(t@, key@)) {
            (Some(v), Some(w)) => *v == w,
            (None, None) => true,
            _ => false,
        },
{
    let mut i: usize = 0;
    assert(t@.skip(0) =~= t@);
    while i < t.len()
        invariant
            i <= t@.len(),
            lookup(t@.skip(i as int), key@) == lookup(t@, key@),
        decreases t@.len() - i,
    {
        assert(t@.skip(i as int).drop_first() =~= t@.skip(i + 1));
        if str_eq(t[i].0.as_str(), key) {
            return Some(&t[i].1);
        }
        i += 1;
    }
    None
}

/// The string at `key`, when it is a string.
pub open spec fn spec_toml_string(t: Seq<(String, TomlValue)>, key: Seq<char>) -> Option<Seq<char>> {
    match lookup(t, key) {
        Some(TomlValue::String(s)) => Some(s@),
        _ => None,
    }
}

/// The string at `key`, when it is a string.
pub fn toml_string(t: &Vec<(String, TomlValue)>, key: &str) -> (r: Option<String>)
    ensures
        match (r, spec_toml_string(t@, key@)) {
            (Some(s), Some(v)) => s@ == v,
            (None, None) => true,
            _ => false,
        },
{
    match get(t, key) {
        Some(TomlValue::String(s)) => Some(s.clone()),
        _ => None,
    }
}

/// The boolean at `key`, when it is a boolean.
pub open spec fn spec_toml_bool(t: Seq<(String, TomlValue)>, key: Seq<char>) -> Option<bool> {
    match lookup(t, key) {
        Some(TomlValue::Boolean(b)) => Some(b),
        _ => None,
    }
}

/// The boolean at `key`, when it is a boolean.
pub fn toml_bool(t: &Vec<(String, TomlValue)>, key: &str) -> (r: Option<bool>)
    ensures
        r == spec_toml_bool(t@, key@),
{
    match get(t, key) {
        Some(TomlValue::Boolean(b)) => Some(*b),
        _ => None,
    }
}

/// The string elements of an array, in order (other elements skipped).
pub open spec fn array_strings(a: Seq<TomlValue>) -> Seq<Seq<char>>
    decreases a.len(),
{
    if a.len() == 0 {
        seq![]
    } else {
        array_strings(a.drop_last()) + match a.last() {
            TomlValue::String(s) => seq![s@],
            _ => seq![],
        }
    }
}

/// The string elements of the array at `key`, when it is an array.
pub open spec fn spec_toml_strings_opt(t: Seq<(String, TomlValue)>, key: Seq<char>) -> Option<Seq<Seq<char>>> {
    match lookup(t, key) {
        Some(TomlValue::Array(a, _)) => Some(array_strings(a@)),
        _ => None,
    }
}

/// The string elements of an array value.
pub fn strings_of(a: &Vec<TomlValue>) -> (r: Vec<String>)
    ensures
        views(r@) == array_strings(a@),
{
    let mut out: Vec<String> = Vec::new();
    let mut i: usize = 0;
    while i < a.len()
        invariant
            i <= a@.len(),
            views(out@) == array_strings(a@.take(i as int)),
        decreases a@.len() - i,
    {
        proof {
            assert(a@.take(i + 1).drop_last() =~= a@.take(i as int));
            assert(a@.take(i + 1).last() == a@[i as int]);
        }
        if let TomlValue::String(s) = &a[i] {
            let ghost prev = out@;
            out.push(s.clone());
            assert(views(out@) =~= views(prev).push(s@));
        } else {
            assert(views(out@) =~= array_strings(a@.take(i + 1)));
        }
        i += 1;
    }
    assert(a@.take(a@.len() as int) =~= a@);
    out
}

/// The number of elements of an array that are not strings.
pub open spec fn non_strings(a: Seq<TomlValue>) -> nat
    decreases a.len(),
{
    if a.len() == 0 {
        0
    } else {
        non_strings(a.drop_last()) + match a.last() {
            TomlValue::String(_) => 0nat,
            _ => 1nat,
        }
    }
}

/// The number of elements of an array that are not strings.
pub fn non_string_count(a: &Vec<TomlValue>) -> (r: usize)
    ensures
        r == non_strings(a@),
{
    let mut n: usize = 0;
    let mut i: usize = 0;
    while i < a.len()
        invariant
            i <= a@.len(),
            n == non_strings(a@.take(i as int)),
            n <= i,
        decreases a@.len() - i,
    {
        proof {
            assert(a@.take(i + 1).drop_last() =~= a@.take(i as int));
            assert(a@.take(i + 1).last() == a@[i as int]);
        }
        if let TomlValue::String(_) = &a[i] {
        } else {
            n += 1;
        }
        i += 1;
    }
    assert(a@.take(a@.len() as int) =~= a@);
    n
}

/// The string elements of the array at `key`, when it is an array.
pub fn toml_strings_opt(t: &Vec<(String, TomlValue)>, key: &str) -> (r: Option<Vec<String>>)
    ensures
        match (r, spec_toml_strings_opt(t@, key@)) {
            (Some(v), Some(w)) => views(v@) == w,
            (None, None) => true,
            _ => false,
        },
{
    match get(t, key) {
        Some(TomlValue::Array(a, _)) => Some(strings_of(a)),
        _ => None,
    }
}

/// The string elements of the array at `key`, sorted and deduplicated
/// (empty when absent).
pub fn toml_strings_sorted(t: &Vec<(String, TomlValue)>, key: &str) -> (r: Vec<String>)
    ensures
        views(r@) == sorted_dedup(
            match spec_toml_strings_opt(t@, key@) {
                Some(w) => w,
                None => seq![],
            },
        ),
{
    match toml_strings_opt(t, key) {
        Some(v) => sort_dedup_strings(v),
        None => {
            let v: Vec<String> = Vec::new();
            assert(views(v@) =~= seq![]);
            proof {
                lemma_sorted_dedup_is(views(v@), seq![]);
            }
            v
        },
    }
}

/// Whether a value is a table.
pub fn as_table(v: &TomlValue) -> (r: Option<&Vec<(String, TomlValue)>>)
    ensures
        match r {
            Some(t) => v matches TomlValue::Table(x, _) && *t == x,
            None => !(v is Table),
        },
{
    match v {
        TomlValue::Table(t, _) => Some(t),
        _ => None,
    }
}

/// The table at `key`, when it is a table.
pub open spec fn spec_table_at(t: Seq<(String, TomlValue)>, key: Seq<char>) -> Option<Seq<(String, TomlValue)>> {
    match lookup(t, key) {
        Some(TomlValue::Table(s, _)) => Some(s@),
        _ => None,
    }
}

/// The table at `key`, when it is a table.
pub fn table_at<'a>(t: &'a Vec<(String, TomlValue)>, key: &str) -> (r: Option<&'a Vec<(String, TomlValue)>>)
    ensures
        match (r, spec_table_at(t@, key@)) {
            (Some(v), Some(w)) => v@ == w,
            (None, None) => true,
            _ => false,
        },
{
    match get(t, key) {
        Some(TomlValue::Table(s, _)) => Some(s),
        _ => None,
    }
}

// ---------------------------------------------------------------------------
// Dependency values: `"1.0"` is `{ version = "1.0" }`
// ---------------------------------------------------------------------------

/// Whether a dependency value is a version string or an inline table.
pub open spec fn is_dep_value(v: TomlValue) -> bool {
    v is String || v is Table
}

/// The value at `key` of a dependency value.
pub open spec fn dep_lookup(v: TomlValue, key: Seq<char>) -> Option<TomlValue> {
    match v {
        TomlValue::String(s) => if key == "version"@ {
            Some(TomlValue::String(s))
        } else {
            None
        },
        TomlValue::Table(t, _) => lookup(t@, key),
        _ => None,
    }
}

/// The value at `key` of a dependency value.
pub fn dep_get<'a>(v: &'a TomlValue, key: &str) -> (r: Option<&'a TomlValue>)
    ensures
        match (r, dep_lookup(*v, key@)) {
            (Some(x), Some(y)) => *x == y,
            (None, None) => true,
            _ => false,
        },
{
    match v {
        TomlValue::String(_) => {
            if str_eq(key, "version") {
                Some(v)
            } else {
                None
            }
        },
        TomlValue::Table(t, _) => get(t, key),
        _ => None,
    }
}

/// The string at `key` of a dependency value.
pub open spec fn dep_string(v: TomlValue, key: Seq<char>) -> Option<Seq<char>> {
    match dep_lookup(v, key) {
        Some(TomlValue::String(s)) => Some(s@),
        _ => None,
    }
}

/// The string at `key` of a dependency value.
pub fn dep_get_string(v: &TomlValue, key: &str) -> (r: Option<String>)
    ensures
        match (r, dep_string(*v, key@)) {
            (Some(s), Some(w)) => s@ == w,
            (None, None) => true,
            _ => false,
        },
{
    match dep_get(v, key) {
        Some(TomlValue::String(s)) => Some(s.clone()),
        _ => None,
    }
}

/// The boolean at `key` of a dependency value.
pub open spec fn dep_bool(v: TomlValue, key: Seq<char>) -> Option<bool> {
    match dep_lookup(v, key) {
        Some(TomlValue::Boolean(b)) => Some(b),
        _ => None,
    }
}

/// The boolean at `key` of a dependency value.
pub fn dep_get_bool(v: &TomlValue, key: &str) -> (r: Option<bool>)
    ensures
        r == dep_bool(*v, key@),
{
    match dep_get(v, key) {
        Some(TomlValue::Boolean(b)) => Some(*b),
        _ => None,
    }
}

/// The string elements of the array at `key` of a dependency value.
pub open spec fn dep_strings(v: TomlValue, key: Seq<char>) -> Option<Seq<Seq<char>>> {
    match dep_lookup(v, key) {
        Some(TomlValue::Array(a, _)) => Some(array_strings(a@)),
        _ => None,
    }
}

/// The string elements of the array at `key` of a dependency value, sorted
/// and deduplicated (empty when absent).
pub fn dep_get_strings_sorted(v: &TomlValue, key: &str) -> (r: Vec<String>)
    ensures
        views(r@) == sorted_dedup(
            match dep_strings(*v, key@) {
                Some(w) => w,
                None => seq![],
            },
        ),
{
    match dep_get(v, key) {
        Some(TomlValue::Array(a, _)) => sort_dedup_strings(strings_of(a)),
        _ => {
            let e: Vec<String> = Vec::new();
            assert(views(e@) =~= seq![]);
            proof {
                lemma_sorted_dedup_is(views(e@), seq![]);
            }
            e
        },
    }
}

/// The string elements of the array at `key` of a dependency value, when
/// it is an array.
pub fn dep_get_strings(v: &TomlValue, key: &str) -> (r: Option<Vec<String>>)
    ensures
        match (r, dep_strings(*v, key@)) {
            (Some(x), Some(w)) => views(x@) == w,
            (None, None) => true,
            _ => false,
        },
{
    match dep_get(v, key) {
        Some(TomlValue::Array(a, _)) => Some(strings_of(a)),
        _ => None,
    }
}

/// Whether a dependency value has an entry at `key`.
pub fn dep_has(v: &TomlValue, key: &str) -> (r: bool)
    ensures
        r == dep_lookup(*v, key@) is Some,
{
    dep_get(v, key).is_some()
}

} // verus!
