//! A preprocessor for shader sources: it composes named text fragments into
//! one text, following `//!` directive lines that define names, splice other
//! fragments in, insert code with names substituted, and keep or blank blocks
//! of lines depending on which names are defined.

pub mod error;
pub mod laws;
pub mod preprocessor;
pub mod symbols;
pub mod text;
pub mod token;

pub use error::PreprocessorErrorType;
pub use preprocessor::{fragment_name, preprocess_dir, ShaderPreprocessor, MAX_INCLUDE_DEPTH};
pub use symbols::SymbolTable;
pub use token::{tokenize, Directive, ShaderToken};
