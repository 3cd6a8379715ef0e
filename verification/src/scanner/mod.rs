//! Which files a scan keeps, and the record of each kept file.

pub mod ignore;
pub mod metadata;
