//! JSON values as the library holds them, and the calls into serde_json and
//! std that turn text into values and back.
use vstd::prelude::*;
use vstd::utf8::{decode_utf8, valid_utf8};

verus! {

#[verifier::external_type_specification]
#[verifier::external_body]
pub struct ExValue(serde_json::Value);

/// A JSON value. A number is kept as the text that serde_json writes for
/// it; an object is its list of members, each a key and a value.
#[derive(Debug, PartialEq)]
pub enum Json {
    Null,
    Bool(bool),
    Number(String),
    Str(String),
    Array(Vec<Json>),
    Object(Vec<(String, Json)>),
}

/// What serde_json reads from a text, when the text is JSON.
pub uninterp spec fn parsed_json(text: Seq<char>) -> Option<Json>;

/// The text serde_json writes for a value, when each number in it is one
/// that serde_json reads.
pub uninterp spec fn rendered_json(j: Json) -> Option<Seq<char>>;

/// Moves a serde_json value into a `Json`, node for node.
#[verifier::external_body]
fn json_from_value(v: serde_json::Value) -> Json {
    match v {
        serde_json::Value::Null => Json::Null,
        serde_json::Value::Bool(b) => Json::Bool(b),
        serde_json::Value::Number(n) => Json::Number(n.to_string()),
        serde_json::Value::String(s) => Json::Str(s),
        serde_json::Value::Array(a) => Json::Array(a.into_iter().map(json_from_value).collect()),
        serde_json::Value::Object(o) => Json::Object(
            o.into_iter().map(|(k, v)| (k, json_from_value(v))).collect(),
        ),
    }
}

/// Copies a `Json` into a serde_json value, node for node; `None` where a
/// number's text is not one that serde_json reads.
#[verifier::external_body]
fn json_to_value(j: &Json) -> Option<serde_json::Value> {
    Some(
        match j {
            Json::Null => serde_json::Value::Null,
            Json::Bool(b) => serde_json::Value::Bool(*b),
            Json::Number(t) => serde_json::Value::Number(t.parse().ok()?),
            Json::Str(s) => serde_json::Value::String(s.clone()),
            Json::Array(a) => serde_json::Value::Array(
                a.iter().map(json_to_value).collect::<Option<Vec<_>>>()?,
            ),
            Json::Object(o) => serde_json::Value::Object(
                o.iter().map(|(k, v)| Some((k.clone(), json_to_value(v)?))).collect::<Option<_>>()?,
            ),
        },
    )
}

/// Relies on serde_json::from_str::<serde_json::Value>: reads a JSON text,
/// and its result depends on the text alone.
#[verifier::external_body]
fn parse_json_text(text: &str) -> (r: Option<Json>)
    ensures
        r == parsed_json(text@),
{
    serde_json::from_str::<serde_json::Value>(text).ok().map(json_from_value)
}

/// Relies on serde_json::to_string: writes a value as JSON text, and its
/// result depends on the value alone.
#[verifier::external_body]
fn render_json_text(j: &Json) -> (r: Option<String>)
    ensures
        match r {
            Some(t) => rendered_json(*j) == Some(t@),
            None => rendered_json(*j) is None,
        },
{
    json_to_value(j).and_then(|v| serde_json::to_string(&v).ok())
}

/// Relies on std::str::from_utf8: it accepts exactly the valid UTF-8 bytes
/// and reads them as the characters they encode.
#[verifier::external_body]
pub(crate) fn utf8_text(b: &[u8]) -> (r: Option<&str>)
    ensures
        r is Some <==> valid_utf8(b@),
        r is Some ==> r->0@ == decode_utf8(b@),
{
    std::str::from_utf8(b).ok()
}

/// The JSON value that a text holds, if it holds one.
pub fn parse_json(text: &str) -> (r: Option<Json>)
    ensures
        r == parsed_json(text@),
{
    parse_json_text(text)
}

/// The JSON text of a value, as UTF-8 bytes.
pub fn encode_json(j: &Json) -> (r: Option<Vec<u8>>)
    ensures
        match r {
            Some(b) => rendered_json(*j) == Some(decode_utf8(b@)) && valid_utf8(b@),
            None => rendered_json(*j) is None,
        },
{
    match render_json_text(j) {
        Some(t) => {
            let b = t.as_str().as_bytes();
            proof {
                vstd::utf8::encode_utf8_valid_utf8(t@);
                vstd::utf8::encode_utf8_decode_utf8(t@);
            }
            let mut v: Vec<u8> = Vec::new();
            let mut i: usize = 0;
            while i < b.len()
                invariant
                    i <= b@.len(),
                    v@ == b@.subrange(0, i as int),
                decreases b@.len() - i,
            {
                v.push(b[i]);
                i = i + 1;
                assert(v@ =~= b@.subrange(0, i as int));
            }
            assert(b@.subrange(0, b@.len() as int) =~= b@);
            Some(v)
        },
        None => None,
    }
}

} // verus!
