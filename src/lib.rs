//! Canonical N-Quads for RDF datasets: a term and quad model that rejects
//! malformed terms, the canonical line grammar, and canonical output for
//! datasets whose quads name no blank node.

pub mod text;
pub mod term;
pub mod nquads;
pub mod order;
pub mod canon;
