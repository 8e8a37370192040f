//! Inspection of an object store's metadata layer: a JSON document tree,
//! the rewriting of its byte-array `checksum` fields as hexadecimal text,
//! and the decisions of the two query modes (one key, or every key).

pub mod json;
pub mod hex;
pub mod normalize;
pub mod laws;
pub mod retrieval;
