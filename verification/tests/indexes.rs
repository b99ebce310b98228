use mongodb_gridfs::options::GridFSBucketOptions;
use mongodb_gridfs::store::index_key_matches;
use mongodb_gridfs::store::is_ascending;
use mongodb_gridfs::store::DocumentStore;
use mongodb_gridfs::store::FileDoc;
use mongodb_gridfs::store::IndexKey;
use mongodb_gridfs::store::IndexMarker;
use mongodb_gridfs::GridFSBucket;

fn default_bucket() -> GridFSBucket {
    GridFSBucket::new(DocumentStore::new(), Some(GridFSBucketOptions::default()))
}

#[test]
fn ensure_files_index_before_write() {
    let mut bucket = default_bucket();
    assert!(bucket.store.files_indexes.is_empty(), "No index expected");

    bucket.upload_from_stream("test.txt", "test data".as_bytes(), None);

    let have_index = bucket.store.files_indexes.iter().any(|k| index_key_matches(*k));
    assert!(have_index, "should found a file index");
    assert!(bucket.store.files_collection_exists);
}

#[test]
fn ensure_chunks_index_before_write() {
    let mut bucket = default_bucket();
    assert!(bucket.store.chunks_indexes.is_empty(), "No index expected");

    bucket.upload_from_stream("test.txt", "test data".as_bytes(), None);

    let have_chunks_index = bucket.store.chunks_indexes.iter().any(|k| index_key_matches(*k));
    assert!(have_chunks_index, "should found a chunk index");
    assert!(bucket.store.chunks_collection_exists);
}

#[test]
fn provisioning_runs_at_most_once_per_instance() {
    let mut bucket = default_bucket();
    bucket.ensure_file_index();
    let files_indexes = bucket.store.files_indexes.clone();
    let chunks_indexes = bucket.store.chunks_indexes.clone();

    bucket.ensure_file_index();
    assert_eq!(bucket.store.files_indexes, files_indexes);
    assert_eq!(bucket.store.chunks_indexes, chunks_indexes);

    bucket.upload_from_stream("again.txt", &[1u8], None);
    assert_eq!(bucket.store.files_indexes, files_indexes);
    assert_eq!(bucket.store.chunks_indexes, chunks_indexes);
}

#[test]
fn provisioning_skipped_when_files_exist() {
    let mut store = DocumentStore::new();
    store.files.push(FileDoc {
        id: 0,
        filename: "already.txt".to_owned(),
        chunk_size: 4,
        length: Some(0),
        upload_date: Some(1),
        md5: None,
        metadata: None,
    });
    store.next_id = 1;
    let mut bucket = GridFSBucket::new(store, Some(GridFSBucketOptions::default()));

    bucket.ensure_file_index();

    assert!(bucket.store.files_indexes.is_empty());
    assert!(bucket.store.chunks_indexes.is_empty());
    assert!(!bucket.never_write);
}

#[test]
fn existing_matching_index_is_not_recreated() {
    let mut store = DocumentStore::new();
    store.files_indexes.push(IndexKey {
        first: IndexMarker::Int(1),
        second: IndexMarker::DoubleBits((1.0f64).to_bits()),
    });
    store.chunks_indexes.push(IndexKey {
        first: IndexMarker::Int(1),
        second: IndexMarker::Int(1),
    });
    let mut bucket = GridFSBucket::new(store, Some(GridFSBucketOptions::default()));

    bucket.ensure_file_index();

    assert_eq!(bucket.store.files_indexes.len(), 1);
    assert_eq!(bucket.store.chunks_indexes.len(), 1);
}

#[test]
fn non_matching_index_triggers_creation() {
    let mut store = DocumentStore::new();
    store.files_indexes.push(IndexKey {
        first: IndexMarker::Int(1),
        second: IndexMarker::Other,
    });
    let mut bucket = GridFSBucket::new(store, Some(GridFSBucketOptions::default()));

    bucket.ensure_file_index();

    assert_eq!(bucket.store.files_indexes.len(), 2);
    assert!(index_key_matches(bucket.store.files_indexes[1]));
}

#[test]
fn ascending_marker_tolerates_integer_and_float() {
    assert!(is_ascending(IndexMarker::Int(1)));
    assert!(is_ascending(IndexMarker::DoubleBits((1.0f64).to_bits())));
    assert!(!is_ascending(IndexMarker::Int(0)));
    assert!(!is_ascending(IndexMarker::Int(-1)));
    assert!(!is_ascending(IndexMarker::DoubleBits((2.0f64).to_bits())));
    assert!(!is_ascending(IndexMarker::DoubleBits((-1.0f64).to_bits())));
    assert!(!is_ascending(IndexMarker::Other));

    assert!(index_key_matches(IndexKey {
        first: IndexMarker::Int(1),
        second: IndexMarker::DoubleBits((1.0f64).to_bits()),
    }));
    assert!(index_key_matches(IndexKey {
        first: IndexMarker::DoubleBits((1.0f64).to_bits()),
        second: IndexMarker::Int(1),
    }));
    assert!(!index_key_matches(IndexKey {
        first: IndexMarker::Int(1),
        second: IndexMarker::Other,
    }));
}

#[test]
fn created_files_index_uses_float_marker_for_upload_date() {
    let mut bucket = default_bucket();
    bucket.create_files_index();
    assert_eq!(bucket.store.files_indexes.len(), 1);
    let key = bucket.store.files_indexes[0];
    assert_eq!(key.first, IndexMarker::Int(1));
    assert_eq!(key.second, IndexMarker::DoubleBits((1.0f64).to_bits()));
    assert!(index_key_matches(key));
}
