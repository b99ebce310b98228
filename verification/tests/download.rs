use mongodb_gridfs::options::GridFSBucketOptions;
use mongodb_gridfs::store::DocumentStore;
use mongodb_gridfs::GridFSBucket;
use mongodb_gridfs::GridFSError;

fn bucket_with_chunk_size(chunk_size: u32) -> GridFSBucket {
    GridFSBucket::new(
        DocumentStore::new(),
        Some(GridFSBucketOptions::builder().chunk_size_bytes(chunk_size).build()),
    )
}

#[test]
fn open_download_stream() {
    let mut bucket = GridFSBucket::new(DocumentStore::new(), Some(GridFSBucketOptions::default()));
    let id = bucket.upload_from_stream("test.txt", "test data".as_bytes(), None);

    let mut cursor = bucket.open_download_stream(id).unwrap();
    let buffer = cursor.next().unwrap();
    assert_eq!(buffer, [116, 101, 115, 116, 32, 100, 97, 116, 97]);
}

#[test]
fn open_download_stream_chunk_size() {
    let mut bucket = bucket_with_chunk_size(4);
    let id = bucket.upload_from_stream("test.txt", "test data".as_bytes(), None);

    let mut cursor = bucket.open_download_stream(id).unwrap();
    let buffer = cursor.next().unwrap();
    assert_eq!(buffer, [116, 101, 115, 116]);

    let buffer = cursor.next().unwrap();
    assert_eq!(buffer, [32, 100, 97, 116]);

    let buffer = cursor.next().unwrap();
    assert_eq!(buffer, [97]);

    let buffer = cursor.next();
    assert_eq!(buffer, None);
}

#[test]
fn open_download_stream_not_existing_file() {
    let bucket = GridFSBucket::new(DocumentStore::new(), Some(GridFSBucketOptions::default()));
    let cursor = bucket.open_download_stream(42);
    assert!(cursor.is_err());
    assert!(matches!(cursor, Err(GridFSError::FileNotFound())));
}

#[test]
fn open_download_stream_with_filename_returns_name() {
    let mut bucket = bucket_with_chunk_size(4);
    let id = bucket.upload_from_stream("named.bin", &[5u8, 6, 7], None);
    let (mut cursor, filename) = bucket.open_download_stream_with_filename(id).unwrap();
    assert_eq!(filename, "named.bin");
    assert_eq!(cursor.next().unwrap(), [5, 6, 7]);
    assert_eq!(cursor.next(), None);
}

#[test]
fn round_trip_reproduces_bytes() {
    let mut bucket = bucket_with_chunk_size(7);
    let mut payload: Vec<u8> = Vec::new();
    let mut value: usize = 0;
    while value < 1000 {
        payload.push((value % 251) as u8);
        value += 1;
    }
    let id = bucket.upload_from_stream("big.bin", payload.as_slice(), None);

    let mut cursor = bucket.open_download_stream(id).unwrap();
    let mut rebuilt: Vec<u8> = Vec::new();
    while let Some(buffer) = cursor.next() {
        assert!(buffer.len() <= 7);
        rebuilt.extend_from_slice(&buffer);
    }
    assert_eq!(rebuilt, payload);
}

#[test]
fn round_trip_interleaved_files() {
    let mut bucket = bucket_with_chunk_size(3);
    let first = bucket.upload_from_stream("a.bin", &[1u8, 2, 3, 4, 5, 6, 7], None);
    let second = bucket.upload_from_stream("b.bin", &[9u8, 9, 9, 9], None);

    let mut cursor = bucket.open_download_stream(first).unwrap();
    let mut rebuilt: Vec<u8> = Vec::new();
    while let Some(buffer) = cursor.next() {
        rebuilt.extend_from_slice(&buffer);
    }
    assert_eq!(rebuilt, vec![1, 2, 3, 4, 5, 6, 7]);

    let mut cursor = bucket.open_download_stream(second).unwrap();
    let mut rebuilt: Vec<u8> = Vec::new();
    while let Some(buffer) = cursor.next() {
        rebuilt.extend_from_slice(&buffer);
    }
    assert_eq!(rebuilt, vec![9, 9, 9, 9]);
}

#[test]
fn download_empty_file_yields_no_buffers() {
    let mut bucket = bucket_with_chunk_size(4);
    let id = bucket.upload_from_stream("empty.bin", &[], None);
    let mut cursor = bucket.open_download_stream(id).unwrap();
    assert_eq!(cursor.next(), None);
}
