//! JSON and TOML text, read and written by `serde_json` and `toml`.
//!
//! Both crates work on `serde_json::Value`; the functions here carry a
//! document between that type and the library's `JsonValue`, value for
//! value, and name what the crates compute.

use vstd::prelude::*;
use crate::json::{JsonData, JsonMap, JsonValue};

verus! {

/// `serde_json::Value`, the document type of `serde_json`, carried through
/// unread.
#[verifier::external_type_specification]
#[verifier::external_body]
pub struct ExJsonValue(serde_json::Value);

/// A JSON number, held as the text that `serde_json` prints for it. Numbers
/// are made only from numbers that `serde_json` read, so the text always
/// reads back as the same number.
#[derive(Debug)]
pub struct JsonNumber {
    text: String,
}

impl View for JsonNumber {
    type V = Seq<char>;

    closed spec fn view(&self) -> Seq<char> {
        self.text@
    }
}

impl JsonNumber {
    /// The text of the number.
    pub fn as_str(&self) -> (t: &str)
        ensures
            t@ == self@,
    {
        self.text.as_str()
    }

    /// The text of the number, as a string of its own.
    pub fn to_text(&self) -> (t: String)
        ensures
            t@ == self@,
    {
        self.text.clone()
    }
}

/// Turns a `serde_json::Value` into a `JsonValue`, value for value; a number
/// keeps the text that `serde_json` prints for it, and an object's entries
/// go into a `JsonMap`.
#[verifier::external_body]
fn from_serde_value(v: serde_json::Value) -> JsonValue {
    match v {
        serde_json::Value::Null => JsonValue::Null,
        serde_json::Value::Bool(b) => JsonValue::Bool(b),
        serde_json::Value::Number(n) => JsonValue::Number(JsonNumber { text: n.to_string() }),
        serde_json::Value::String(s) => JsonValue::String(s),
        serde_json::Value::Array(a) => JsonValue::Array(a.into_iter().map(from_serde_value).collect()),
        serde_json::Value::Object(m) => JsonValue::Object(m.into_iter().fold(JsonMap::new(), |mut o, (k, x)| {
            o.insert(k, from_serde_value(x));
            o
        })),
    }
}

/// Turns a `JsonValue` into a `serde_json::Value`, value for value; a
/// number's text is read back with `serde_json::from_str` (it always reads
/// back, having been printed by `serde_json`; `Null` stands where it would
/// not).
#[verifier::external_body]
fn to_serde_value(v: &JsonValue) -> serde_json::Value {
    match v {
        JsonValue::Null => serde_json::Value::Null,
        JsonValue::Bool(b) => serde_json::Value::Bool(*b),
        JsonValue::Number(n) => serde_json::from_str(&n.text).map_or(serde_json::Value::Null, serde_json::Value::Number),
        JsonValue::String(s) => serde_json::Value::String(s.clone()),
        JsonValue::Array(a) => serde_json::Value::Array(a.iter().map(to_serde_value).collect()),
        JsonValue::Object(m) => to_serde_object(m),
    }
}

/// Turns a `JsonMap` into a `serde_json::Value::Object`, entry for entry.
#[verifier::external_body]
fn to_serde_object(m: &JsonMap) -> serde_json::Value {
    serde_json::Value::Object(m.entries().iter().map(|(k, x)| (k.clone(), to_serde_value(x))).collect())
}

/// The content of the document that `serde_json::from_str` reads from `text`
/// as a `serde_json::Value`, or `None` where it reports an error.
pub uninterp spec fn json_parsed(text: Seq<char>) -> Option<JsonData>;

/// Parses JSON text with `serde_json::from_str` into a `serde_json::Value`.
///
/// The contract claims that the outcome depends on the text alone: a
/// document with the content read, or an error. Which error is left unsaid.
#[verifier::external_body]
pub(crate) fn parse_json(text: &str) -> (r: Result<JsonValue, serde_json::Error>)
    ensures
        r is Ok <==> json_parsed(text@) is Some,
        r matches Ok(v) ==> json_parsed(text@) == Some(v.data()),
{
    serde_json::from_str::<serde_json::Value>(text).map(from_serde_value)
}

/// The content of the document that `toml::from_str` reads from `text` as a
/// `serde_json::Value`, or `None` where it reports an error.
pub uninterp spec fn toml_parsed(text: Seq<char>) -> Option<JsonData>;

/// Parses TOML text with `toml::from_str` into a `serde_json::Value`.
///
/// The contract claims that the outcome depends on the text alone: a
/// document with the content read, or an error. Which error is left unsaid.
#[verifier::external_body]
pub(crate) fn parse_toml(text: &str) -> (r: Result<JsonValue, toml::de::Error>)
    ensures
        r is Ok <==> toml_parsed(text@) is Some,
        r matches Ok(v) ==> toml_parsed(text@) == Some(v.data()),
{
    toml::from_str::<serde_json::Value>(text).map(from_serde_value)
}

/// The text that `serde_json::to_string_pretty` writes for a document with
/// the content `doc`.
pub uninterp spec fn json_pretty_text(doc: JsonData) -> Seq<char>;

/// Renders a document as pretty-printed JSON with
/// `serde_json::to_string_pretty`.
///
/// The contract claims that the text depends on the document's content
/// alone. `to_string_pretty` reports an error only where a value's
/// `Serialize` does or a map key is not a string, which never happens for a
/// `serde_json::Value`, so the text is always there.
#[verifier::external_body]
pub(crate) fn render_json_pretty(doc: &JsonValue) -> (t: String)
    ensures
        t@ == json_pretty_text(doc.data()),
{
    serde_json::to_string_pretty(&to_serde_value(doc)).unwrap_or_default()
}

/// The text that `toml::to_string` writes for a document with the content
/// `doc`, or `None` where it reports an error.
pub uninterp spec fn toml_text(doc: JsonData) -> Option<Seq<char>>;

/// Renders a document as TOML with `toml::to_string`.
///
/// The contract claims that the outcome depends on the document's content
/// alone: the text, or an error. Which error is left unsaid.
#[verifier::external_body]
pub(crate) fn render_toml(doc: &JsonValue) -> (r: Result<String, toml::ser::Error>)
    ensures
        r is Ok <==> toml_text(doc.data()) is Some,
        r matches Ok(t) ==> toml_text(doc.data()) == Some(t@),
{
    toml::to_string(&to_serde_value(doc))
}

/// The text that `serde_json::to_string` writes for a document with the
/// content `doc`.
pub uninterp spec fn json_compact_text(doc: JsonData) -> Seq<char>;

/// Renders a document as compact JSON with `serde_json::to_string`, which
/// for a `serde_json::Value` reports no error (see `render_json_pretty`).
///
/// The contract claims that the text depends on the document's content
/// alone.
#[verifier::external_body]
pub(crate) fn render_json_compact(doc: &JsonValue) -> (t: String)
    ensures
        t@ == json_compact_text(doc.data()),
{
    serde_json::to_string(&to_serde_value(doc)).unwrap_or_default()
}

} // verus!
