//! The generic document model: a tagged value that can represent any YAML or
//! JSON value losslessly, with numbers carried in their textual form so
//! that no information is lost between the two encodings.

use vstd::prelude::*;

verus! {

/// One structured document. Scalars are `Null`, `Bool`, `Number` and `Text`;
/// `Number` holds the number's textual form exactly as the source wrote it
/// (so integers and floating-point numbers alike pass through unchanged).
/// `Sequence` and `Mapping` hold children in source order; mapping keys need
/// not be `Text`, since YAML allows arbitrary keys, and equal keys are never
/// merged by the pipeline (the parsers reject them; only a renderer's own
/// map type would collapse a hand-built pair of equal keys).
#[derive(Debug, PartialEq)]
#[verifier::ext_equal]
pub enum Document {
    Null,
    Bool(bool),
    Number(String),
    Text(String),
    Sequence(Vec<Document>),
    Mapping(Vec<(Document, Document)>),
}

} // verus!
