use mongodb_gridfs::bucket::find::FindFilter;
use mongodb_gridfs::options::FindSort;
use mongodb_gridfs::options::GridFSBucketOptions;
use mongodb_gridfs::options::GridFSFindOptions;
use mongodb_gridfs::options::SortField;
use mongodb_gridfs::store::DocumentStore;
use mongodb_gridfs::GridFSBucket;
use mongodb_gridfs::GridFSError;

fn default_bucket() -> GridFSBucket {
    GridFSBucket::new(DocumentStore::new(), Some(GridFSBucketOptions::default()))
}

#[test]
fn delete_a_file() {
    let mut bucket = default_bucket();
    let id = bucket.upload_from_stream("test.txt", "test data".as_bytes(), None);

    bucket.delete(id).unwrap();

    let file_count = bucket.store.files.iter().filter(|f| f.id == id).count();
    assert_eq!(file_count, 0, "File should be deleted");

    let chunk_count = bucket.store.chunks.iter().filter(|c| c.files_id == id).count();
    assert_eq!(chunk_count, 0, "Chunks should be deleted");
}

#[test]
fn delete_a_non_existant_file() {
    let mut bucket = default_bucket();
    let id: u64 = 42;

    let result = bucket.delete(id);
    assert!(result.is_err());

    let file_count = bucket.store.files.iter().filter(|f| f.id == id).count();
    assert_eq!(file_count, 0, "File should be deleted");

    let chunk_count = bucket.store.chunks.iter().filter(|c| c.files_id == id).count();
    assert_eq!(chunk_count, 0, "Chunks should be deleted");
}

#[test]
fn delete_unknown_id_leaves_other_files_alone() {
    let mut bucket = default_bucket();
    let kept = bucket.upload_from_stream("keep.txt", "keep".as_bytes(), None);
    let files_before = bucket.store.files.len();
    let chunks_before = bucket.store.chunks.len();

    let result = bucket.delete(kept + 1);
    assert!(matches!(result, Err(GridFSError::FileNotFound())));
    assert_eq!(bucket.store.files.len(), files_before);
    assert_eq!(bucket.store.chunks.len(), chunks_before);
}

#[test]
fn delete_removes_only_that_files_chunks() {
    let mut bucket = GridFSBucket::new(
        DocumentStore::new(),
        Some(GridFSBucketOptions::builder().chunk_size_bytes(2).build()),
    );
    let doomed = bucket.upload_from_stream("doomed.bin", &[1u8, 2, 3, 4, 5], None);
    let kept = bucket.upload_from_stream("kept.bin", &[6u8, 7, 8], None);

    bucket.delete(doomed).unwrap();

    assert!(bucket.store.chunks.iter().all(|c| c.files_id != doomed));
    let kept_chunks = bucket.store.chunks.iter().filter(|c| c.files_id == kept).count();
    assert_eq!(kept_chunks, 2);
    assert_eq!(bucket.store.files.len(), 1);
    assert_eq!(bucket.store.files[0].id, kept);
}

#[test]
fn rename_a_file() {
    let mut bucket = default_bucket();
    let id = bucket.upload_from_stream("test.txt", "test data".as_bytes(), None);

    bucket.rename(id, "renamed_file.txt");

    let file = bucket.store.files.iter().find(|f| f.id == id).unwrap();
    assert_eq!(file.filename, "renamed_file.txt");
}

#[test]
fn rename_changes_nothing_else() {
    let mut bucket = default_bucket();
    let id = bucket.upload_from_stream_at("test.txt", "test data".as_bytes(), None, 77);
    let before = bucket.store.files.iter().find(|f| f.id == id).unwrap().clone();

    let result = bucket.rename(id, "renamed_file.txt");
    assert_eq!(result.matched_count, 1);
    assert_eq!(result.modified_count, 1);

    let after = bucket.store.files.iter().find(|f| f.id == id).unwrap();
    assert_eq!(after.filename, "renamed_file.txt");
    assert_eq!(after.id, before.id);
    assert_eq!(after.chunk_size, before.chunk_size);
    assert_eq!(after.length, before.length);
    assert_eq!(after.upload_date, before.upload_date);
    assert_eq!(after.md5, before.md5);
    assert_eq!(after.metadata, before.metadata);
}

#[test]
fn rename_a_non_existing_file_reports_zero_matches() {
    let mut bucket = default_bucket();
    let result = bucket.rename(42, "renamed_file.txt");
    assert_eq!(result.matched_count, 0);
    assert_eq!(result.modified_count, 0);
    assert!(bucket.store.files.is_empty());
}

#[test]
fn rename_to_same_name_modifies_nothing() {
    let mut bucket = default_bucket();
    let id = bucket.upload_from_stream("same.txt", &[1u8], None);
    let result = bucket.rename(id, "same.txt");
    assert_eq!(result.matched_count, 1);
    assert_eq!(result.modified_count, 0);
}

#[test]
fn drop_bucket() {
    let mut bucket = default_bucket();
    bucket.upload_from_stream("test.txt", "test data".as_bytes(), None);

    assert!(bucket.store.files_collection_exists);
    assert!(bucket.store.chunks_collection_exists);

    bucket.drop();

    assert!(bucket.store.files.is_empty());
    assert!(bucket.store.chunks.is_empty());
    assert!(!bucket.store.files_collection_exists);
    assert!(!bucket.store.chunks_collection_exists);
    assert!(bucket.store.files_indexes.is_empty());
    assert!(bucket.store.chunks_indexes.is_empty());
}

#[test]
fn drop_keeps_id_counter() {
    let mut bucket = default_bucket();
    let first = bucket.upload_from_stream("a.txt", &[1u8], None);
    bucket.drop();
    let second = bucket.upload_from_stream("b.txt", &[2u8], None);
    assert_ne!(first, second);
}

#[test]
fn find_a_file() {
    let mut bucket = default_bucket();
    bucket.upload_from_stream("test.txt", "test data".as_bytes(), None);

    let found = bucket.find(
        FindFilter::ByFilename("test.txt".to_owned()),
        GridFSFindOptions::default(),
    );

    assert_eq!(found.len(), 1);
    for doc in &found {
        assert_eq!(doc.filename, "test.txt");
        assert_eq!(doc.chunk_size, 261120);
        assert_eq!(doc.length, Some(9));
        assert_eq!(doc.md5.as_deref(), Some("eb733a00c0c9d336e65691a37ab54293"));
    }
}

#[test]
fn find_a_non_existing_file() {
    let mut bucket = default_bucket();
    bucket.upload_from_stream("test.txt", "test data".as_bytes(), None);

    let found = bucket.find(
        FindFilter::ByFilename("null.txt".to_owned()),
        GridFSFindOptions::default(),
    );
    assert!(found.is_empty());
}

#[test]
fn find_returns_exactly_the_matching_documents() {
    let mut bucket = default_bucket();
    let first = bucket.upload_from_stream("x", &[1u8], None);
    bucket.upload_from_stream("y", &[2u8], None);
    let third = bucket.upload_from_stream("x", &[3u8], None);

    let found = bucket.find(
        FindFilter::ByFilename("x".to_owned()),
        GridFSFindOptions::default(),
    );
    assert_eq!(found.len(), 2);
    assert!(found.iter().all(|d| d.filename == "x"));
    assert_eq!(found[0].id, first);
    assert_eq!(found[1].id, third);
}

#[test]
fn find_respects_sort_skip_and_limit() {
    let mut bucket = default_bucket();
    let a = bucket.upload_from_stream_at("a", &[1u8], None, 30);
    let b = bucket.upload_from_stream_at("b", &[1u8], None, 10);
    let c = bucket.upload_from_stream_at("c", &[1u8], None, 20);

    let sort = FindSort { field: SortField::UploadDate, ascending: true };
    let mut options = GridFSFindOptions::default();
    options.sort = Some(sort);

    let sorted = bucket.find(FindFilter::All, options);
    let ids: Vec<u64> = sorted.iter().map(|d| d.id).collect();
    assert_eq!(ids, vec![b, c, a]);

    options.skip = 1;
    options.limit = Some(1);
    let window = bucket.find(FindFilter::All, options);
    let ids: Vec<u64> = window.iter().map(|d| d.id).collect();
    assert_eq!(ids, vec![c]);

    options.skip = 0;
    options.limit = None;
    options.sort = Some(FindSort { field: SortField::UploadDate, ascending: false });
    let reversed = bucket.find(FindFilter::All, options);
    let ids: Vec<u64> = reversed.iter().map(|d| d.id).collect();
    assert_eq!(ids, vec![a, c, b]);
}

#[test]
fn find_breaks_ties_by_ascending_id() {
    let mut bucket = default_bucket();
    let first = bucket.upload_from_stream_at("a", &[1u8], None, 5);
    let second = bucket.upload_from_stream_at("b", &[1u8], None, 5);

    let mut options = GridFSFindOptions::default();
    options.sort = Some(FindSort { field: SortField::UploadDate, ascending: true });
    let found = bucket.find(FindFilter::All, options);
    let ids: Vec<u64> = found.iter().map(|d| d.id).collect();
    assert_eq!(ids, vec![first, second]);
}

#[test]
fn find_by_id_matches_one_document() {
    let mut bucket = default_bucket();
    bucket.upload_from_stream("a", &[1u8], None);
    let wanted = bucket.upload_from_stream("b", &[2u8], None);

    let found = bucket.find(FindFilter::ById(wanted), GridFSFindOptions::default());
    assert_eq!(found.len(), 1);
    assert_eq!(found[0].id, wanted);
}
