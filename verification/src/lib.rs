//! A content-addressed store for compiled program blobs.
//!
//! A blob names its own format in its metadata ([`format`], [`json`],
//! [`version`]); the format's strategy computes a digest over it ([`class`],
//! [`program`]), whose text form is the blob's content hash ([`felt`],
//! [`hash`]); and the blob is stored under that hash, once ([`upload`],
//! [`store`]). [`service`] puts the steps together for an upload request and
//! for a download.

pub mod class;
pub mod error;
pub mod felt;
pub mod format;
pub mod hash;
pub mod json;
pub mod program;
pub mod segments;
pub mod service;
pub mod store;
pub mod upload;
pub mod version;
