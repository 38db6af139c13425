//! The boundary to the YAML and JSON codecs. Parsing and per-document
//! serialization are done by serde; everything here is trusted, and each
//! item's contract states no more than the codec's own documentation gives.
//! The names `yaml_doc_of`, `json_doc_of`, `yaml_bytes_of` and
//! `json_bytes_of` stand for the parse and print results, which are
//! functions of the input alone.

use vstd::prelude::*;

use crate::doc::Document;

verus! {

broadcast use vstd::std_specs::vec::group_vec_axioms;

#[verifier::external_type_specification]
#[verifier::external_body]
pub struct ExYamlValue(serde_yaml::Value);

#[verifier::external_type_specification]
#[verifier::external_body]
pub struct ExYamlMapping(serde_yaml::Mapping);

/// How the YAML number parser reads a text: not as a number at all, as a
/// finite number, or as one of the non-finite floats (`.inf`, `-.inf`,
/// `.nan`). Which texts fall where is the parser's own affair and is only
/// named here; it depends on the text alone.
#[derive(Debug, Clone, Copy, PartialEq, Eq, Structural)]
pub enum NumberKind {
    NotANumber,
    Finite,
    NonFinite,
}

/// The kind the YAML number parser assigns to a number text.
pub uninterp spec fn yaml_number_kind(s: Seq<char>) -> NumberKind;

/// Every number text of the document reads as a YAML number: exactly the
/// documents the YAML renderer accepts.
pub open spec fn yaml_ok(d: Document) -> bool
    decreases d,
{
    match d {
        Document::Null => true,
        Document::Bool(_) => true,
        Document::Number(s) => yaml_number_kind(s@) != NumberKind::NotANumber,
        Document::Text(_) => true,
        Document::Sequence(v) => forall|i: int| 0 <= i < v.len() ==> yaml_ok(#[trigger] v[i]),
        Document::Mapping(v) => forall|i: int|
            0 <= i < v.len() ==> yaml_ok(#[trigger] v[i].0) && yaml_ok(v[i].1),
    }
}

/// A mapping key the JSON renderer accepts: text passes through, and a
/// boolean or a finite number is written as a quoted string — the
/// renderer's stated coercion. Null, non-finite numbers, sequences and
/// mappings are refused as keys.
pub open spec fn json_key_ok(d: Document) -> bool {
    match d {
        Document::Text(_) => true,
        Document::Bool(_) => true,
        Document::Number(s) => yaml_number_kind(s@) == NumberKind::Finite,
        _ => false,
    }
}

/// Exactly the documents the JSON renderer accepts: every number text
/// reads as a YAML number (a non-finite one renders as `null`), and every
/// mapping key is text, a boolean or a finite number.
pub open spec fn json_ok(d: Document) -> bool
    decreases d,
{
    match d {
        Document::Null => true,
        Document::Bool(_) => true,
        Document::Number(s) => yaml_number_kind(s@) != NumberKind::NotANumber,
        Document::Text(_) => true,
        Document::Sequence(v) => forall|i: int| 0 <= i < v.len() ==> json_ok(#[trigger] v[i]),
        Document::Mapping(v) => forall|i: int|
            0 <= i < v.len() ==> json_key_ok(#[trigger] v[i].0) && json_ok(v[i].1),
    }
}

/// The document that parsing a byte string as one YAML document yields, or
/// nothing when the text is malformed.
pub uninterp spec fn yaml_doc_of(b: Seq<u8>) -> Option<Document>;

/// The document that parsing a byte string as one JSON value yields, or
/// nothing when the text is malformed or followed by trailing garbage.
pub uninterp spec fn json_doc_of(b: Seq<u8>) -> Option<Document>;

/// The YAML rendering of one document, without any document marker.
pub uninterp spec fn yaml_bytes_of(d: Document) -> Seq<u8>;

/// The compact JSON rendering of one document.
pub uninterp spec fn json_bytes_of(d: Document) -> Seq<u8>;

/// Relies on serde_yaml::Value: rebuilds the parsed value as a Document.
/// Numbers keep their textual form; a tagged value (YAML `!Tag`, which the
/// document model does not represent) loses the tag and keeps the value.
#[verifier::external_body]
fn doc_of_value(v: serde_yaml::Value) -> Document {
    match v {
        serde_yaml::Value::Null => Document::Null,
        serde_yaml::Value::Bool(b) => Document::Bool(b),
        serde_yaml::Value::Number(n) => Document::Number(n.to_string()),
        serde_yaml::Value::String(s) => Document::Text(s),
        serde_yaml::Value::Sequence(xs) => docs_of_values(xs),
        serde_yaml::Value::Mapping(m) => doc_of_mapping(m),
        serde_yaml::Value::Tagged(t) => doc_of_value(t.value),
    }
}

/// Relies on serde_yaml::Value: each element of a parsed sequence becomes
/// one child document, in order.
#[verifier::external_body]
fn docs_of_values(xs: Vec<serde_yaml::Value>) -> Document {
    Document::Sequence(xs.into_iter().map(doc_of_value).collect())
}

/// Relies on serde_yaml::Mapping: each pair of a parsed mapping becomes
/// one key and value document, in the mapping's own order.
#[verifier::external_body]
fn doc_of_mapping(m: serde_yaml::Mapping) -> Document {
    Document::Mapping(m.into_iter().map(|(k, w)| (doc_of_value(k), doc_of_value(w))).collect())
}

/// Relies on serde_yaml::Value and serde_yaml::Number: rebuilds a Document
/// as a value the codecs serialize. Fails only on a `Number` whose text
/// the YAML number parser rejects.
#[verifier::external_body]
fn value_of_doc(d: &Document) -> Result<serde_yaml::Value, ()> {
    match d {
        Document::Null => Ok(serde_yaml::Value::Null),
        Document::Bool(b) => Ok(serde_yaml::Value::Bool(*b)),
        Document::Number(s) => value_of_number(s),
        Document::Text(s) => Ok(serde_yaml::Value::String(s.clone())),
        Document::Sequence(v) => value_of_children(v),
        Document::Mapping(v) => value_of_pairs(v),
    }
}

/// Relies on serde_yaml::Number::from_str: a number document's text must
/// read back as a YAML number, and does exactly when its kind says so.
#[verifier::external_body]
fn value_of_number(s: &String) -> (r: Result<serde_yaml::Value, ()>)
    ensures
        r is Ok <==> yaml_number_kind(s@) != NumberKind::NotANumber,
{
    s.parse::<serde_yaml::Number>().map(serde_yaml::Value::Number).map_err(|_| ())
}

/// Relies on serde_yaml::Value: a sequence document's children become the
/// value's elements, in order.
#[verifier::external_body]
fn value_of_children(v: &Vec<Document>) -> Result<serde_yaml::Value, ()> {
    v.iter().map(value_of_doc).collect::<Result<Vec<_>, ()>>().map(serde_yaml::Value::Sequence)
}

/// Relies on serde_yaml::Mapping: a mapping document's pairs become the
/// value's entries, in order. A hand-built mapping with two equal keys
/// collapses to one entry here, the last value under the first position;
/// the parsers never yield such a mapping (a duplicate key is a parse
/// failure), and nothing else merges anything.
#[verifier::external_body]
fn value_of_pairs(v: &Vec<(Document, Document)>) -> Result<serde_yaml::Value, ()> {
    v.iter().map(|p| Ok((value_of_doc(&p.0)?, value_of_doc(&p.1)?))).collect::<Result<
        serde_yaml::Mapping,
        (),
    >>().map(serde_yaml::Value::Mapping)
}

/// Relies on serde_yaml::from_slice: parses one YAML document, failing on
/// malformed text; the result depends on the bytes alone.
#[verifier::external_body]
pub(crate) fn parse_yaml_bytes(b: &[u8]) -> (r: Option<Document>)
    ensures
        r == yaml_doc_of(b@),
{
    match serde_yaml::from_slice::<serde_yaml::Value>(b) {
        Ok(v) => Some(doc_of_value(v)),
        Err(_) => None,
    }
}

/// Relies on serde_json::from_slice: parses exactly one JSON value,
/// failing on malformed text and on trailing garbage; the result depends on
/// the bytes alone.
#[verifier::external_body]
pub(crate) fn parse_json_bytes(b: &[u8]) -> (r: Option<Document>)
    ensures
        r == json_doc_of(b@),
{
    match serde_json::from_slice::<serde_yaml::Value>(b) {
        Ok(v) => Some(doc_of_value(v)),
        Err(_) => None,
    }
}

/// Relies on serde_json::to_vec: renders one value compactly; the bytes
/// depend on the document alone. Rendering succeeds exactly on the
/// `json_ok` documents: it fails when a number's text does not read back
/// as a number, or when a mapping key cannot become a JSON object key
/// (the renderer writes boolean and finite-number keys as quoted strings;
/// null, non-finite, sequence and mapping keys it refuses).
#[verifier::external_body]
pub(crate) fn doc_to_json(d: &Document) -> (r: Option<Vec<u8>>)
    ensures
        r matches Some(out) ==> out@ == json_bytes_of(*d),
        r is Some <==> json_ok(*d),
{
    match value_of_doc(d) {
        Ok(v) => serde_json::to_vec(&v).ok(),
        Err(()) => None,
    }
}

/// Relies on serde_yaml::to_string: renders one value as a standalone YAML
/// document; the bytes depend on the document alone. Rendering succeeds
/// exactly on the `yaml_ok` documents: it fails only when a number's text
/// does not read back as a number, since the event-based emitter takes
/// every key shape and every string.
#[verifier::external_body]
pub(crate) fn doc_to_yaml(d: &Document) -> (r: Option<Vec<u8>>)
    ensures
        r matches Some(out) ==> out@ == yaml_bytes_of(*d),
        r is Some <==> yaml_ok(*d),
{
    match value_of_doc(d) {
        Ok(v) => serde_yaml::to_string(&v).ok().map(String::into_bytes),
        Err(()) => None,
    }
}

} // verus!
