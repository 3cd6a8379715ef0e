//! The structure graph of a project.

pub mod builder;
