use mongodb_gridfs::options::GridFSBucketOptions;
use mongodb_gridfs::options::GridFSBucketOptionsBuilder;
use mongodb_gridfs::options::GridFSUploadOptions;
use mongodb_gridfs::options::ProgressUpdate;
use mongodb_gridfs::store::DocumentStore;
use mongodb_gridfs::GridFSBucket;
use std::cell::RefCell;

fn default_bucket() -> GridFSBucket {
    GridFSBucket::new(DocumentStore::new(), Some(GridFSBucketOptions::default()))
}

fn bucket_with_chunk_size(chunk_size: u32) -> GridFSBucket {
    let builder: GridFSBucketOptionsBuilder = GridFSBucketOptions::builder();
    GridFSBucket::new(
        DocumentStore::new(),
        Some(builder.chunk_size_bytes(chunk_size).build()),
    )
}

#[test]
fn grid_f_s_bucket_new() {
    let bucket = GridFSBucket::new(DocumentStore::new(), Some(GridFSBucketOptions::default()));
    if let Some(options) = &bucket.options {
        assert_eq!(options.bucket_name, GridFSBucketOptions::default().bucket_name);
    }
    assert!(bucket.never_write);
    assert!(bucket.store.files.is_empty());
    assert!(bucket.store.chunks.is_empty());
}

#[test]
fn upload_from_stream() {
    let mut bucket = default_bucket();
    let id = bucket.upload_from_stream("test.txt", "test data".as_bytes(), None);

    let file = bucket.store.files.iter().find(|f| f.id == id).unwrap();
    assert_eq!(file.filename, "test.txt");
    assert_eq!(file.chunk_size, 261120);
    assert_eq!(file.length, Some(9));
    assert_eq!(file.md5.as_deref(), Some("eb733a00c0c9d336e65691a37ab54293"));

    let chunks: Vec<_> = bucket.store.chunks.iter().filter(|c| c.files_id == id).collect();
    assert_eq!(chunks.len(), 1);
    assert_eq!(chunks[0].n, 0);
    assert_eq!(chunks[0].data, vec![116u8, 101, 115, 116, 32, 100, 97, 116, 97]);
}

#[test]
fn upload_from_stream_chunk_size() {
    let mut bucket = bucket_with_chunk_size(8);
    let id = bucket.upload_from_stream("test.txt", "test data 1234567890".as_bytes(), None);

    let file = bucket.store.files.iter().find(|f| f.id == id).unwrap();
    assert_eq!(file.filename, "test.txt");
    assert_eq!(file.chunk_size, 8);
    assert_eq!(file.length, Some(20));
    assert_eq!(file.md5.as_deref(), Some("5e75d6271a7cfc3d9b79116be261eb21"));

    let chunks: Vec<_> = bucket.store.chunks.iter().filter(|c| c.files_id == id).collect();
    assert_eq!(chunks.len(), 3);
    assert_eq!(chunks[0].n, 0);
    assert_eq!(chunks[0].data, vec![116u8, 101, 115, 116, 32, 100, 97, 116]);
    assert_eq!(chunks[1].n, 1);
    assert_eq!(chunks[1].data, vec![97u8, 32, 49, 50, 51, 52, 53, 54]);
    assert_eq!(chunks[2].n, 2);
    assert_eq!(chunks[2].data, vec![55u8, 56, 57, 48]);
}

#[test]
fn upload_exact_multiple_keeps_full_last_chunk() {
    let mut bucket = bucket_with_chunk_size(4);
    let id = bucket.upload_from_stream("even.bin", &[7u8; 8], None);
    let chunks: Vec<_> = bucket.store.chunks.iter().filter(|c| c.files_id == id).collect();
    assert_eq!(chunks.len(), 2);
    assert_eq!(chunks[0].data.len(), 4);
    assert_eq!(chunks[1].data.len(), 4);
}

#[test]
fn upload_empty_source_stores_no_chunks() {
    let mut bucket = default_bucket();
    let id = bucket.upload_from_stream("empty.txt", &[], None);
    let file = bucket.store.files.iter().find(|f| f.id == id).unwrap();
    assert_eq!(file.length, Some(0));
    assert!(bucket.store.chunks.iter().all(|c| c.files_id != id));
}

#[test]
fn upload_zero_chunk_size_stores_nothing() {
    let mut bucket = bucket_with_chunk_size(0);
    let id = bucket.upload_from_stream("odd.bin", &[1u8, 2, 3], None);
    let file = bucket.store.files.iter().find(|f| f.id == id).unwrap();
    assert_eq!(file.length, Some(0));
    assert!(bucket.store.chunks.is_empty());
}

#[test]
fn upload_checksum_disabled_omits_md5() {
    let options = GridFSBucketOptions::builder().disable_md5(true).build();
    let mut bucket = GridFSBucket::new(DocumentStore::new(), Some(options));
    let id = bucket.upload_from_stream("test.txt", "test data".as_bytes(), None);
    let file = bucket.store.files.iter().find(|f| f.id == id).unwrap();
    assert_eq!(file.md5, None);
}

#[test]
fn upload_checksum_is_32_lowercase_hex() {
    let mut bucket = default_bucket();
    let id = bucket.upload_from_stream("test.txt", "test data".as_bytes(), None);
    let file = bucket.store.files.iter().find(|f| f.id == id).unwrap();
    let digest = file.md5.as_deref().unwrap();
    assert_eq!(digest.len(), 32);
    assert!(digest.chars().all(|c| c.is_ascii_hexdigit() && !c.is_ascii_uppercase()));
}

#[test]
fn upload_at_uses_given_timestamp() {
    let mut bucket = default_bucket();
    let id = bucket.upload_from_stream_at("test.txt", "test data".as_bytes(), None, 1234);
    let file = bucket.store.files.iter().find(|f| f.id == id).unwrap();
    assert_eq!(file.upload_date, Some(1234));
}

#[test]
fn upload_metadata_passthrough() {
    let mut bucket = default_bucket();
    let options = GridFSUploadOptions::builder()
        .metadata(Some(vec![1u8, 2, 3]))
        .build();
    let with_meta = bucket.upload_from_stream("a.txt", &[9u8], Some(options));
    let bare = bucket.upload_from_stream("b.txt", &[9u8], None);
    let meta_file = bucket.store.files.iter().find(|f| f.id == with_meta).unwrap();
    let bare_file = bucket.store.files.iter().find(|f| f.id == bare).unwrap();
    assert_eq!(meta_file.metadata, Some(vec![1u8, 2, 3]));
    assert_eq!(bare_file.metadata, None);
}

#[test]
fn upload_per_call_chunk_size_overrides_bucket() {
    let mut bucket = bucket_with_chunk_size(100);
    let options = GridFSUploadOptions::builder()
        .chunk_size_bytes(Some(2))
        .build();
    let id = bucket.upload_from_stream("small.bin", &[1u8, 2, 3, 4, 5], Some(options));
    let file = bucket.store.files.iter().find(|f| f.id == id).unwrap();
    assert_eq!(file.chunk_size, 2);
    let count = bucket.store.chunks.iter().filter(|c| c.files_id == id).count();
    assert_eq!(count, 3);
}

struct Recorder {
    positions: RefCell<Vec<usize>>,
}

impl ProgressUpdate for Recorder {
    fn update(&self, position: usize) {
        self.positions.borrow_mut().push(position);
    }
}

#[test]
fn upload_progress_reports_cumulative_bytes() {
    let mut bucket = bucket_with_chunk_size(4);
    let recorder = Recorder { positions: RefCell::new(Vec::new()) };
    bucket.upload_from_stream_with_progress("test.txt", "test data".as_bytes(), None, &recorder);
    assert_eq!(*recorder.positions.borrow(), vec![4usize, 8, 9]);
}

#[test]
fn upload_ids_are_fresh_and_increasing() {
    let mut bucket = default_bucket();
    let a = bucket.upload_from_stream("a", &[1u8], None);
    let b = bucket.upload_from_stream("b", &[2u8], None);
    assert_ne!(a, b);
    assert_eq!(a, 0);
    assert_eq!(b, 1);
}
