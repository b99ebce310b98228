//! Configuration for buckets, uploads and find queries.
//!
//! All values are plain and immutable, with the documented defaults. The
//! durability and consistency knobs are modeled as small enums; the
//! unverified shell translates them to the driver's own types.

use vstd::prelude::*;

verus! {

/// The default bucket name prefix.
pub open spec fn default_bucket_name() -> Seq<char> {
    "fs"@
}

/// The default chunk size: 255 KiB.
pub const DEFAULT_CHUNK_SIZE_BYTES: u32 = 255 * 1024;

/// Progress callback for uploads: receives the cumulative number of bytes
/// written, synchronously after each chunk persists. It must not affect
/// chunking decisions, and the upload contract does not depend on it.
pub trait ProgressUpdate {
    fn update(&self, position: usize);
}

/// Write durability level, inherited from the database unless overridden.
#[derive(Clone, Copy, Debug, PartialEq, Eq, Structural)]
pub enum WriteDurability {
    /// Acknowledged by the given number of nodes.
    Nodes(u32),
    /// Acknowledged by a majority of nodes.
    Majority,
}

/// Read consistency level, inherited from the database unless overridden.
#[derive(Clone, Copy, Debug, PartialEq, Eq, Structural)]
pub enum ReadConsistency {
    Local,
    Majority,
    Linearizable,
    Available,
    Snapshot,
}

/// Replica-selection policy for reads, inherited from the database unless
/// overridden.
#[derive(Clone, Copy, Debug, PartialEq, Eq, Structural)]
pub enum ReadPreference {
    Primary,
    PrimaryPreferred,
    Secondary,
    SecondaryPreferred,
    Nearest,
}

/// Configuration of a bucket.
#[derive(Clone)]
pub struct GridFSBucketOptions {
    /// The bucket name. Defaults to `fs`.
    pub bucket_name: String,
    /// The chunk size in bytes. Defaults to 255 KiB.
    pub chunk_size_bytes: u32,
    /// The write durability. Defaults to that of the database.
    pub write_concern: Option<WriteDurability>,
    /// The read consistency. Defaults to that of the database.
    pub read_concern: Option<ReadConsistency>,
    /// The read preference. Defaults to that of the database.
    pub read_preference: Option<ReadPreference>,
    /// When true, no checksum is computed for uploaded files. Defaults to
    /// false.
    pub disable_md5: bool,
}

/// Mathematical model of [`GridFSBucketOptions`].
#[verifier::ext_equal]
pub ghost struct GridFSBucketOptionsView {
    pub bucket_name: Seq<char>,
    pub chunk_size_bytes: u32,
    pub write_concern: Option<WriteDurability>,
    pub read_concern: Option<ReadConsistency>,
    pub read_preference: Option<ReadPreference>,
    pub disable_md5: bool,
}

impl View for GridFSBucketOptions {
    type V = GridFSBucketOptionsView;

    open spec fn view(&self) -> GridFSBucketOptionsView {
        GridFSBucketOptionsView {
            bucket_name: self.bucket_name@,
            chunk_size_bytes: self.chunk_size_bytes,
            write_concern: self.write_concern,
            read_concern: self.read_concern,
            read_preference: self.read_preference,
            disable_md5: self.disable_md5,
        }
    }
}

impl GridFSBucketOptionsView {
    /// The documented default configuration.
    pub open spec fn default_view() -> GridFSBucketOptionsView {
        GridFSBucketOptionsView {
            bucket_name: default_bucket_name(),
            chunk_size_bytes: DEFAULT_CHUNK_SIZE_BYTES,
            write_concern: None,
            read_concern: None,
            read_preference: None,
            disable_md5: false,
        }
    }
}

impl Default for GridFSBucketOptions {
    fn default() -> (r: GridFSBucketOptions)
        ensures
            r@ == GridFSBucketOptionsView::default_view(),
    {
        GridFSBucketOptions {
            bucket_name: "fs".to_owned(),
            chunk_size_bytes: DEFAULT_CHUNK_SIZE_BYTES,
            write_concern: None,
            read_concern: None,
            read_preference: None,
            disable_md5: false,
        }
    }
}

impl GridFSBucketOptions {
    /// Starts a builder whose fields hold the documented defaults.
    pub fn builder() -> (b: GridFSBucketOptionsBuilder)
        ensures
            b@ == GridFSBucketOptionsView::default_view(),
    {
        GridFSBucketOptionsBuilder { options: GridFSBucketOptions::default() }
    }
}

/// Builder for [`GridFSBucketOptions`]; every field starts at its default.
pub struct GridFSBucketOptionsBuilder {
    options: GridFSBucketOptions,
}

impl View for GridFSBucketOptionsBuilder {
    type V = GridFSBucketOptionsView;

    closed spec fn view(&self) -> GridFSBucketOptionsView {
        self.options@
    }
}

impl GridFSBucketOptionsBuilder {
    pub fn bucket_name(self, bucket_name: String) -> (r: Self)
        ensures
            r@ == (GridFSBucketOptionsView { bucket_name: bucket_name@, ..self@ }),
    {
        GridFSBucketOptionsBuilder { options: GridFSBucketOptions { bucket_name, ..self.options } }
    }

    pub fn chunk_size_bytes(self, chunk_size_bytes: u32) -> (r: Self)
        ensures
            r@ == (GridFSBucketOptionsView { chunk_size_bytes, ..self@ }),
    {
        GridFSBucketOptionsBuilder {
            options: GridFSBucketOptions { chunk_size_bytes, ..self.options },
        }
    }

    pub fn write_concern(self, write_concern: Option<WriteDurability>) -> (r: Self)
        ensures
            r@ == (GridFSBucketOptionsView { write_concern, ..self@ }),
    {
        GridFSBucketOptionsBuilder { options: GridFSBucketOptions { write_concern, ..self.options } }
    }

    pub fn read_concern(self, read_concern: Option<ReadConsistency>) -> (r: Self)
        ensures
            r@ == (GridFSBucketOptionsView { read_concern, ..self@ }),
    {
        GridFSBucketOptionsBuilder { options: GridFSBucketOptions { read_concern, ..self.options } }
    }

    pub fn read_preference(self, read_preference: Option<ReadPreference>) -> (r: Self)
        ensures
            r@ == (GridFSBucketOptionsView { read_preference, ..self@ }),
    {
        GridFSBucketOptionsBuilder {
            options: GridFSBucketOptions { read_preference, ..self.options },
        }
    }

    pub fn disable_md5(self, disable_md5: bool) -> (r: Self)
        ensures
            r@ == (GridFSBucketOptionsView { disable_md5, ..self@ }),
    {
        GridFSBucketOptionsBuilder { options: GridFSBucketOptions { disable_md5, ..self.options } }
    }

    pub fn build(self) -> (r: GridFSBucketOptions)
        ensures
            r@ == self@,
    {
        self.options
    }
}

/// Per-upload configuration.
#[derive(Clone)]
pub struct GridFSUploadOptions {
    /// The number of bytes per chunk of this file. Defaults to the
    /// `chunk_size_bytes` of the bucket options.
    pub chunk_size_bytes: Option<u32>,
    /// User data for the `metadata` field of the file document, as raw
    /// document bytes. When absent the field is omitted entirely.
    pub metadata: Option<Vec<u8>>,
    /// Deprecated MIME type; never persisted.
    pub content_type: Option<String>,
    /// Deprecated aliases; never persisted.
    pub aliases: Option<Vec<String>>,
}

/// Mathematical model of [`GridFSUploadOptions`].
#[verifier::ext_equal]
pub ghost struct GridFSUploadOptionsView {
    pub chunk_size_bytes: Option<u32>,
    pub metadata: Option<Seq<u8>>,
    pub content_type: Option<Seq<char>>,
    pub aliases: Option<Seq<Seq<char>>>,
}

impl View for GridFSUploadOptions {
    type V = GridFSUploadOptionsView;

    open spec fn view(&self) -> GridFSUploadOptionsView {
        GridFSUploadOptionsView {
            chunk_size_bytes: self.chunk_size_bytes,
            metadata: match self.metadata {
                Some(m) => Some(m@),
                None => None,
            },
            content_type: match self.content_type {
                Some(c) => Some(c@),
                None => None,
            },
            aliases: match self.aliases {
                Some(a) => Some(a.deep_view()),
                None => None,
            },
        }
    }
}

impl GridFSUploadOptionsView {
    /// The default per-upload configuration: everything inherited or absent.
    pub open spec fn default_view() -> GridFSUploadOptionsView {
        GridFSUploadOptionsView {
            chunk_size_bytes: None,
            metadata: None,
            content_type: None,
            aliases: None,
        }
    }
}

impl Default for GridFSUploadOptions {
    fn default() -> (r: GridFSUploadOptions)
        ensures
            r@ == GridFSUploadOptionsView::default_view(),
    {
        GridFSUploadOptions { chunk_size_bytes: None, metadata: None, content_type: None, aliases: None }
    }
}

impl GridFSUploadOptions {
    /// Starts a builder whose fields hold the defaults.
    pub fn builder() -> (b: GridFSUploadOptionsBuilder)
        ensures
            b@ == GridFSUploadOptionsView::default_view(),
    {
        GridFSUploadOptionsBuilder { options: GridFSUploadOptions::default() }
    }
}

/// Builder for [`GridFSUploadOptions`].
pub struct GridFSUploadOptionsBuilder {
    options: GridFSUploadOptions,
}

impl View for GridFSUploadOptionsBuilder {
    type V = GridFSUploadOptionsView;

    closed spec fn view(&self) -> GridFSUploadOptionsView {
        self.options@
    }
}

impl GridFSUploadOptionsBuilder {
    pub fn chunk_size_bytes(self, chunk_size_bytes: Option<u32>) -> (r: Self)
        ensures
            r@ == (GridFSUploadOptionsView { chunk_size_bytes, ..self@ }),
    {
        GridFSUploadOptionsBuilder {
            options: GridFSUploadOptions { chunk_size_bytes, ..self.options },
        }
    }

    pub fn metadata(self, metadata: Option<Vec<u8>>) -> (r: Self)
        ensures
            r@ == (GridFSUploadOptionsView {
                metadata: match metadata {
                    Some(m) => Some(m@),
                    None => None,
                },
                ..self@
            }),
    {
        GridFSUploadOptionsBuilder { options: GridFSUploadOptions { metadata, ..self.options } }
    }

    pub fn build(self) -> (r: GridFSUploadOptions)
        ensures
            r@ == self@,
    {
        self.options
    }
}

/// The field a find query sorts by.
#[derive(Clone, Copy, Debug, PartialEq, Eq, Structural)]
pub enum SortField {
    /// The store-generated file id.
    Id,
    /// The finalized total length; files without one order first.
    Length,
    /// The completion timestamp; files without one order first.
    UploadDate,
}

/// Sort order for find queries. Ties on the sort field are broken by
/// ascending file id, so the order is total.
#[derive(Clone, Copy, Debug, PartialEq, Eq, Structural)]
pub struct FindSort {
    pub field: SortField,
    pub ascending: bool,
}

/// Configuration of a find query on the files collection.
#[derive(Clone, Copy, Debug)]
pub struct GridFSFindOptions {
    /// Allows the server to write temporary data to disk while executing the
    /// query. Sent only when explicitly provided.
    pub allow_disk_use: Option<bool>,
    /// The number of documents to return per batch.
    pub batch_size: Option<u32>,
    /// The maximum number of documents to return; `0` means no limit, and a
    /// negative value counts as its absolute value.
    pub limit: Option<i64>,
    /// The maximum time the query may run, in milliseconds.
    pub max_time: Option<u64>,
    /// Suppresses the server's idle-cursor timeout.
    pub no_cursor_timeout: Option<bool>,
    /// The number of documents to skip before returning; a negative value
    /// counts as zero.
    pub skip: i64,
    /// The order in which to sort results. Defaults to not sorting.
    pub sort: Option<FindSort>,
}

impl Default for GridFSFindOptions {
    fn default() -> (r: GridFSFindOptions)
        ensures
            r.allow_disk_use == None::<bool>,
            r.batch_size == None::<u32>,
            r.limit == None::<i64>,
            r.max_time == None::<u64>,
            r.no_cursor_timeout == None::<bool>,
            r.skip == 0i64,
            r.sort == None::<FindSort>,
    {
        GridFSFindOptions {
            allow_disk_use: None,
            batch_size: None,
            limit: None,
            max_time: None,
            no_cursor_timeout: None,
            skip: 0,
            sort: None,
        }
    }
}

impl GridFSFindOptions {
    /// Starts a builder whose fields hold the defaults.
    pub fn builder() -> (b: GridFSFindOptionsBuilder)
        ensures
            b.options.allow_disk_use == None::<bool>,
            b.options.batch_size == None::<u32>,
            b.options.limit == None::<i64>,
            b.options.max_time == None::<u64>,
            b.options.no_cursor_timeout == None::<bool>,
            b.options.skip == 0i64,
            b.options.sort == None::<FindSort>,
    {
        GridFSFindOptionsBuilder { options: GridFSFindOptions::default() }
    }
}

/// Builder for [`GridFSFindOptions`].
pub struct GridFSFindOptionsBuilder {
    pub options: GridFSFindOptions,
}

impl GridFSFindOptionsBuilder {
    pub fn allow_disk_use(self, allow_disk_use: Option<bool>) -> (r: Self)
        ensures
            r.options == (GridFSFindOptions { allow_disk_use, ..self.options }),
    {
        GridFSFindOptionsBuilder { options: GridFSFindOptions { allow_disk_use, ..self.options } }
    }

    pub fn batch_size(self, batch_size: Option<u32>) -> (r: Self)
        ensures
            r.options == (GridFSFindOptions { batch_size, ..self.options }),
    {
        GridFSFindOptionsBuilder { options: GridFSFindOptions { batch_size, ..self.options } }
    }

    pub fn limit(self, limit: Option<i64>) -> (r: Self)
        ensures
            r.options == (GridFSFindOptions { limit, ..self.options }),
    {
        GridFSFindOptionsBuilder { options: GridFSFindOptions { limit, ..self.options } }
    }

    pub fn max_time(self, max_time: Option<u64>) -> (r: Self)
        ensures
            r.options == (GridFSFindOptions { max_time, ..self.options }),
    {
        GridFSFindOptionsBuilder { options: GridFSFindOptions { max_time, ..self.options } }
    }

    pub fn no_cursor_timeout(self, no_cursor_timeout: Option<bool>) -> (r: Self)
        ensures
            r.options == (GridFSFindOptions { no_cursor_timeout, ..self.options }),
    {
        GridFSFindOptionsBuilder { options: GridFSFindOptions { no_cursor_timeout, ..self.options } }
    }

    pub fn skip(self, skip: i64) -> (r: Self)
        ensures
            r.options == (GridFSFindOptions { skip, ..self.options }),
    {
        GridFSFindOptionsBuilder { options: GridFSFindOptions { skip, ..self.options } }
    }

    pub fn sort(self, sort: Option<FindSort>) -> (r: Self)
        ensures
            r.options == (GridFSFindOptions { sort, ..self.options }),
    {
        GridFSFindOptionsBuilder { options: GridFSFindOptions { sort, ..self.options } }
    }

    pub fn build(self) -> (r: GridFSFindOptions)
        ensures
            r == self.options,
    {
        self.options
    }
}

} // verus!
