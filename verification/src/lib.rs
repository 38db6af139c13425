//! Combine many YAML and JSON files into one artifact: a multi-document
//! YAML stream, a JSON array, or a Kubernetes-style list object.
//!
//! The pipeline is select, load, encode. `select` filters and deduplicates
//! the candidate files a directory walk found; `load` turns each file's
//! content into documents, splitting multi-document YAML on its `---`
//! markers; `encode` joins the whole batch into one byte stream. The
//! document model keeps numbers textually, so values pass between the two
//! encodings unchanged. Reading files and writing the result are the
//! caller's; serde parses and renders the single documents.

pub mod app;
pub mod codec;
pub mod doc;
pub mod encode;
pub mod load;
pub mod select;
pub mod split;
