//! Rust source evidence: comments, vocabulary, and line/column anchoring.

pub mod comments;
pub mod dedup;
pub mod parser;
pub mod types;
pub mod vocabulary;
pub mod syntax;
