//! Text analysis pipelines that turn text into term ids, and the sparse
//! BM25 vector codec that stores the resulting term frequencies.

pub mod character_filter;
pub mod datatype;
pub mod model;
pub mod pool;
pub mod pre_tokenizer;
pub mod text;
pub mod text_analyzer;
pub mod token_filter;
pub mod tokenizer;
