//! A bidirectional codec for the MDX model container: nested, tagged binary
//! chunks are decoded into a typed tree, and the tree is encoded back into the
//! bytes it came from.
//!
//! Every type of the format implements [`types::materialize::Materialized`]:
//! `spec_parse` is its grammar over `Seq<u8>`, `wire` the byte sequence of a
//! value and `encode_error` the failure of its encoder, and the executable
//! `parse_versioned` and `encode` are proved to compute exactly those.
//!
//! Two laws connect the directions. What was parsed is encoded to the bytes it
//! was parsed from ([`types::materialize::Lossless`], and
//! [`parser::lemma_round_trip_identity`] for a whole file), as long as no
//! optional block was met twice; and what was encoded from a well-formed value
//! is parsed back to that value ([`types::materialize::Reparsable`], and
//! [`parser::lemma_encoded_is_parsed_back`] for a whole model).
//!
//! Single-precision numbers are moved as their bits
//! ([`types::materialize::FloatBits`]): the codec never computes with them.

/// Encodes an in-memory model into bytes.
pub mod encoder;
/// Decodes bytes into a typed model.
pub mod parser;
/// The typed structure of a model and the codec of each record.
pub mod types;
