//! An in-memory blob store: named buckets holding named objects of bytes.

pub mod error;
pub mod object;
pub mod bucket;
pub mod store;
