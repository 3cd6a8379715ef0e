//! The project map: files, directories, symbols and their relationships.

pub mod schema;
pub mod builder;
