//! A JSON value tree of the library's own, and the decoders that fill it.
use vstd::prelude::*;

verus! {

/// A JSON value. Numbers keep their decimal text; objects keep their
/// members as key and value pairs.
#[derive(Debug)]
pub enum Json {
    Null,
    Bool(bool),
    Number(String),
    Str(String),
    Array(Vec<Json>),
    Object(Vec<(String, Json)>),
}

#[verifier::external_type_specification]
#[verifier::external_body]
pub struct ExJsonError(serde_json::Error);

#[verifier::external_type_specification]
#[verifier::external_body]
pub struct ExJsonValue(serde_json::Value);

/// The documents of a byte stream that holds zero or more JSON documents one
/// after the other, or `None` where the stream is not such a sequence.
pub uninterp spec fn json_stream(b: Seq<u8>) -> Option<Seq<Json>>;

/// The single JSON document that a byte string holds, or `None` where it holds
/// no single well-formed document.
pub uninterp spec fn json_document(b: Seq<u8>) -> Option<Json>;

/// Turns serde_json's value tree into the library's own, variant for variant
/// (numbers through serde_json's `Number` display). Only the two decoders
/// below use it; their contracts cover the tree it builds.
#[verifier::external_body]
fn from_value(v: serde_json::Value) -> Json {
    match v {
        serde_json::Value::Null => Json::Null,
        serde_json::Value::Bool(b) => Json::Bool(b),
        serde_json::Value::Number(n) => Json::Number(n.to_string()),
        serde_json::Value::String(s) => Json::Str(s),
        serde_json::Value::Array(a) => Json::Array(a.into_iter().map(from_value).collect()),
        serde_json::Value::Object(m) => Json::Object(
            m.into_iter().map(|(k, x)| (k, from_value(x))).collect(),
        ),
    }
}

/// Relies on serde_json's `StreamDeserializer` (`Deserializer::from_slice`
/// and `into_iter`): decodes the concatenated documents in order, or fails
/// with the first decode error.
#[verifier::external_body]
pub(crate) fn decode_stream(b: &[u8]) -> (r: Result<Vec<Json>, serde_json::Error>)
    ensures
        match r {
            Ok(docs) => json_stream(b@) == Some(docs@),
            Err(_) => json_stream(b@) is None,
        },
{
    serde_json::Deserializer::from_slice(b).into_iter::<serde_json::Value>().map(
        |d| d.map(from_value),
    ).collect()
}

/// Relies on `serde_json::from_slice`: decodes exactly one document, with
/// nothing but white space after it.
#[verifier::external_body]
pub(crate) fn decode_document(b: &[u8]) -> (r: Result<Json, serde_json::Error>)
    ensures
        match r {
            Ok(doc) => json_document(b@) == Some(doc),
            Err(_) => json_document(b@) is None,
        },
{
    serde_json::from_slice::<serde_json::Value>(b).map(from_value)
}

} // verus!
