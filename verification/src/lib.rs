//! A content-addressable object store in the style of a version-control
//! system's plumbing layer: the canonical encoding of objects, the parser for
//! directory listings, and the mapping from an identifier to its place on disk.

pub mod error;
pub mod mode;
pub mod scan;
pub mod digits;
pub mod text;
pub mod hex;
pub mod entry;
pub mod tree;
pub mod listing;
pub mod object;
pub mod header;
pub mod codec;
pub mod digest;
pub mod zlib;
pub mod store;
