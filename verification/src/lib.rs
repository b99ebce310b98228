//! Chunked file storage in the GridFS style, on top of a document-oriented
//! store.
//!
//! Byte streams too large for a single document are split into bounded chunk
//! documents and reassembled on read; companion metadata lives in a separate
//! files collection. The two collections of one bucket are modeled here by
//! [`store::DocumentStore`], and every bucket operation — uploading,
//! downloading, deleting, renaming, finding and dropping, as well as the lazy
//! index provisioning that precedes the first write — is carried out and
//! verified against that model. The unverified shell that speaks to a real
//! MongoDB deployment drives the same decision logic from outside.

use vstd::prelude::*;

pub mod bucket;
pub mod chunking;
pub mod clock;
pub mod digest;
pub mod laws;
pub mod options;
pub mod store;

pub use bucket::GridFSBucket;

verus! {

/// Error raised by bucket operations.
///
/// A store failure is any error of the underlying document store; it is
/// surfaced unmodified by the unverified shell and never produced by the
/// in-memory model. File-not-found is raised by `delete` when no file
/// document matches, and by the download operations when the file document
/// lookup returns nothing.
#[derive(Debug, PartialEq, Eq, Structural)]
pub enum GridFSError {
    MongoError(),
    FileNotFound(),
}

} // verus!
