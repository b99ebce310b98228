//! The bucket handle and its operations.
//!
//! A [`GridFSBucket`] binds a [`DocumentStore`] to a configuration and to
//! the instance-local flag that gates lazy index provisioning. The
//! operations live in the submodules: uploading, downloading, deleting,
//! renaming, finding and dropping.

pub mod delete;
pub mod download;
pub mod drop;
pub mod find;
pub mod rename;
pub mod upload;

use crate::options::DEFAULT_CHUNK_SIZE_BYTES;
use crate::options::GridFSBucketOptions;
use crate::options::GridFSBucketOptionsView;
use crate::options::GridFSUploadOptions;
use crate::options::GridFSUploadOptionsView;
use crate::store::DocumentStore;
use crate::store::StoreView;
use vstd::prelude::*;

verus! {

/// A handle on one bucket: the modeled pair of collections, the bucket
/// configuration, and the instance-local provisioning flag.
pub struct GridFSBucket {
    /// The modeled collections of this bucket.
    pub store: DocumentStore,
    /// The bucket configuration; absent means all defaults.
    pub options: Option<GridFSBucketOptions>,
    /// True until index provisioning has run on this instance.
    pub never_write: bool,
}

/// Mathematical model of [`GridFSBucket`].
#[verifier::ext_equal]
pub ghost struct BucketView {
    pub store: StoreView,
    pub options: Option<GridFSBucketOptionsView>,
    pub never_write: bool,
}

/// The view of an optional bucket configuration.
pub open spec fn bucket_options_view(options: Option<GridFSBucketOptions>) -> Option<
    GridFSBucketOptionsView,
> {
    match options {
        Some(o) => Some(o@),
        None => None,
    }
}

/// The view of an optional per-upload configuration.
pub open spec fn upload_options_view(options: Option<GridFSUploadOptions>) -> Option<
    GridFSUploadOptionsView,
> {
    match options {
        Some(o) => Some(o@),
        None => None,
    }
}

impl View for GridFSBucket {
    type V = BucketView;

    open spec fn view(&self) -> BucketView {
        BucketView {
            store: self.store@,
            options: bucket_options_view(self.options),
            never_write: self.never_write,
        }
    }
}

/// The chunk size of a bucket configuration, or the default.
pub open spec fn spec_bucket_chunk_size(options: Option<GridFSBucketOptionsView>) -> u32 {
    match options {
        Some(o) => o.chunk_size_bytes,
        None => DEFAULT_CHUNK_SIZE_BYTES,
    }
}

/// The chunk size an upload uses: the per-call override when present, else
/// the bucket's configured size, else the default.
pub open spec fn spec_effective_chunk_size(
    options: Option<GridFSBucketOptionsView>,
    upload_options: Option<GridFSUploadOptionsView>,
) -> u32 {
    match upload_options {
        Some(u) => match u.chunk_size_bytes {
            Some(c) => c,
            None => spec_bucket_chunk_size(options),
        },
        None => spec_bucket_chunk_size(options),
    }
}

/// Whether the bucket configuration disables checksums.
pub open spec fn spec_disable_md5(options: Option<GridFSBucketOptionsView>) -> bool {
    match options {
        Some(o) => o.disable_md5,
        None => false,
    }
}

/// The metadata an upload persists, when supplied.
pub open spec fn spec_upload_metadata(upload_options: Option<GridFSUploadOptionsView>) -> Option<
    Seq<u8>,
> {
    match upload_options {
        Some(u) => u.metadata,
        None => None,
    }
}

impl GridFSBucket {
    /// Creates a new bucket handle on `store` with the given `options`. The
    /// handle has not provisioned indexes yet.
    pub fn new(store: DocumentStore, options: Option<GridFSBucketOptions>) -> (b: GridFSBucket)
        ensures
            b@ == (BucketView {
                store: store@,
                options: bucket_options_view(options),
                never_write: true,
            }),
    {
        GridFSBucket { store, options, never_write: true }
    }

    /// Resolves the chunk size an upload with `upload_options` uses on this
    /// bucket.
    pub fn effective_chunk_size(&self, upload_options: &Option<GridFSUploadOptions>) -> (c: u32)
        ensures
            c == spec_effective_chunk_size(self@.options, upload_options_view(*upload_options)),
    {
        let mut c = match &self.options {
            Some(o) => o.chunk_size_bytes,
            None => DEFAULT_CHUNK_SIZE_BYTES,
        };
        if let Some(u) = upload_options {
            if let Some(cs) = u.chunk_size_bytes {
                c = cs;
            }
        }
        c
    }

    /// Whether this bucket's configuration disables checksums.
    pub(crate) fn checksum_disabled(&self) -> (r: bool)
        ensures
            r == spec_disable_md5(self@.options),
    {
        match &self.options {
            Some(o) => o.disable_md5,
            None => false,
        }
    }
}

} // verus!
