//! A content store for container images.
//!
//! Blobs are kept under the digest of their bytes. New blobs come in through
//! staged writes, which are checked against what was expected before they
//! become visible. Labels are kept beside the blobs and can change. Filters
//! select stored objects by their fields.
//!
//! The library decides; it reads and writes no files. Whoever owns the
//! files asks it where a blob lies, whether a commit may go through and what
//! a walk hands on, and does what it is told.

pub mod content;
pub mod digest;
pub mod error;
pub mod filters;
pub mod text;
