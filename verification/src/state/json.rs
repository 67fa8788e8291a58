//! The JSON parsing and printing behind the Raw-body field editor, done by
//! serde_json.

use vstd::prelude::*;
use serde_json::Value;

verus! {

/// The kind of a JSON value, as field typing reads it.
#[derive(Debug, Clone, Copy, PartialEq, Eq, Structural)]
pub enum JsonKind {
    Null,
    Bool,
    /// A number that serde_json holds as an integer (it fits `i64` or `u64`).
    Integer,
    /// Any other number.
    Float,
    Str,
    Array,
    Object,
}

/// The top-level entries of `text` parsed as a JSON object, each with its
/// key, the kind of its value and the value as shown in a field (a string's
/// content, any other value as compact JSON); none when `text` is not a JSON
/// object.
pub uninterp spec fn json_object_fields(text: Seq<char>) -> Option<Seq<(Seq<char>, JsonKind, Seq<char>)>>;

/// The pretty-printed JSON object holding `pairs` (a value that parses as
/// JSON is that value, any other is a JSON string; a later duplicate key
/// replaces an earlier one).
pub uninterp spec fn json_object_text(pairs: Seq<(Seq<char>, Seq<char>)>) -> Option<Seq<char>>;

/// Calls `serde_json::from_str::<Value>` and, for an object, lists its
/// entries in the map's order (with serde_json's `preserve_order`, the order
/// in which the keys first appear in the text; keys are distinct): each key with its
/// value's kind and, via `Value::as_str` / `Value::to_string`, the value as
/// a field shows it.
#[verifier::external_body]
pub(crate) fn parse_json_object(text: &str) -> (r: Option<Vec<(String, JsonKind, String)>>)
    ensures
        match r {
            Some(v) => json_object_fields(text@) == Some(
                v@.map_values(|e: (String, JsonKind, String)| (e.0@, e.1, e.2@)),
            ),
            None => json_object_fields(text@) is None,
        },
        r matches Some(v) ==> v@.map_values(|e: (String, JsonKind, String)| e.0@).no_duplicates(),
{
    let value: Value = serde_json::from_str(text).ok()?;
    let kind = |v: &Value| match v {
        Value::Null => JsonKind::Null,
        Value::Bool(_) => JsonKind::Bool,
        Value::Number(n) if n.is_f64() => JsonKind::Float,
        Value::Number(_) => JsonKind::Integer,
        Value::String(_) => JsonKind::Str,
        Value::Array(_) => JsonKind::Array,
        Value::Object(_) => JsonKind::Object,
    };
    let shown = |v: &Value| v.as_str().map_or_else(|| v.to_string(), str::to_owned);
    Some(value.as_object()?.iter().map(|(k, v)| (k.clone(), kind(v), shown(v))).collect())
}

/// Builds a `serde_json::Map` from `pairs` (each value through
/// `serde_json::from_str`, falling back to `Value::String`) and calls
/// `serde_json::to_string_pretty` on the object.
#[verifier::external_body]
pub(crate) fn render_json_object(pairs: &[(String, String)]) -> (r: Option<String>)
    ensures
        match r {
            Some(s) => json_object_text(pairs@.map_values(|p: (String, String)| (p.0@, p.1@))) == Some(s@),
            None => json_object_text(pairs@.map_values(|p: (String, String)| (p.0@, p.1@))) is None,
        },
{
    let mut map = serde_json::Map::new();
    for (k, v) in pairs {
        map.insert(k.clone(), serde_json::from_str(v).unwrap_or_else(|_| Value::String(v.clone())));
    }
    serde_json::to_string_pretty(&Value::Object(map)).ok()
}

} // verus!
