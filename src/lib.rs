//! A uniform object-storage access layer: an in-memory store and the
//! request logic of an S3-compatible HTTP store, with their contracts.

pub mod date;
pub mod error;
pub mod memory;
pub mod metadata;
pub mod ops;
pub mod s3;
pub mod text;
pub mod xml;
