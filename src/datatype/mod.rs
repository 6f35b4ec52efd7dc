//! Sparse BM25 vectors: the validated view and the binary codec.

pub mod bm25vector;
pub mod memory_bm25vector;
