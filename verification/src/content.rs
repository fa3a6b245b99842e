//! The content store: blobs addressed by digest, their labels, and the
//! staged writes that bring new blobs in.

pub mod adaptor;
pub mod info;
pub mod ingest;
pub mod labels;
pub mod memory;
pub mod model;
pub mod store;
