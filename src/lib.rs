//! Static analysis of Rust source trees: per-function complexity metrics,
//! and a content-addressed index of declarations (types, implementation
//! blocks, functions and methods) with qualified names, spans, doc comments
//! and normalised text.
//!
//! Parsing belongs to the caller, which hands each file over in the model of
//! `syntax`; everything computed from there on is verified.
pub mod analyzer;
pub mod complexity_analyzer;
pub mod indexer;
pub mod performance;
pub mod syntax;
pub mod text;

pub use complexity_analyzer::{
    ComplexityAnalyzer, ComplexityDetails, ComplexityRating, FunctionComplexity,
};
pub use indexer::{create_index, parse_rust_file, CodeFragment, CodeIndex};
