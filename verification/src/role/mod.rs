//! Roles of files in the project map.

pub mod classifier;
