//! Errors and content hashes.

pub mod error;
pub mod hash;
