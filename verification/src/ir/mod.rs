//! The project intermediate representation: what one analysis run produces.

pub mod schema;
pub mod builder;
