//! Language detection, entry points, file roles and dependency manifests.

pub mod language;
pub mod file_role;
pub mod entrypoint;
pub mod dependency;
