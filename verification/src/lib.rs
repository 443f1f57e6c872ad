//! Cross-encoder reranking: tokenizer setup, length-ordered batching of
//! query/document pairs, model-input assembly and score bookkeeping.

pub mod errors;
pub mod ordering;
pub mod tokenizer;
pub mod loaded;
pub mod text;
pub mod inference;
pub mod row_major;
pub mod rerank;
pub mod stats;
pub mod data;
pub mod hub;
pub mod serving;

pub use errors::CrossEncoderError;
