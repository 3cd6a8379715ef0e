//! Symbols found in source text: classes, functions, methods, imports.

pub mod signature;
pub mod extractor;
