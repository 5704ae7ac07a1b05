//! Locating the executables that a Cargo build produced.
//!
//! The library holds the decisions: where a project's manifest lies, which
//! binary names a manifest declares, which file a selection mode points at,
//! and which of the files found in a build tree was modified last. Reading
//! files, asking the filesystem about paths and walking directories are left
//! to the caller, who hands the results in as plain values.

pub mod manifest;
pub mod outcome;
pub mod paths;
pub mod resolve;
pub mod theorems;
