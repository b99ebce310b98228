use mongodb_gridfs::options::GridFSBucketOptions;
use mongodb_gridfs::options::GridFSFindOptions;

#[test]
fn grid_fs_bucket_options_default() {
    let options = GridFSBucketOptions::default();
    assert_eq!(options.bucket_name, "fs");
    assert_eq!(options.chunk_size_bytes, 255 * 1024);
    assert_eq!(options.disable_md5, false);
}

#[test]
fn grid_fs_bucket_options_builder_default() {
    let options = GridFSBucketOptions::builder().build();
    assert_eq!(options.bucket_name, "fs");
    assert_eq!(options.chunk_size_bytes, 255 * 1024);
    assert_eq!(options.disable_md5, false);
}

#[test]
fn grid_fs_bucket_options_bucket_name() {
    let options = GridFSBucketOptions::builder()
        .bucket_name("newfs".into())
        .build();
    assert_eq!(options.bucket_name, "newfs");
}

#[test]
fn grid_fs_bucket_options_chunk_size_bytes() {
    let options = GridFSBucketOptions::builder().chunk_size_bytes(1023).build();
    assert_eq!(options.chunk_size_bytes, 1023);
}

#[test]
fn grid_fs_bucket_options_builder_chain() {
    let options = GridFSBucketOptions::builder()
        .bucket_name("newfs".into())
        .chunk_size_bytes(1023)
        .build();
    assert_eq!(options.bucket_name, "newfs");
    assert_eq!(options.chunk_size_bytes, 1023);
}

#[test]
fn grid_fs_find_options_builder_chain() {
    let options = GridFSFindOptions::builder().skip(4).build();
    assert_eq!(options.skip, 4);
}

#[test]
fn grid_fs_find_options_builder_default() {
    let options = GridFSFindOptions::builder().build();
    assert_eq!(options.allow_disk_use, None);
    assert_eq!(options.batch_size, None);
    assert_eq!(options.limit, None);
    assert_eq!(options.max_time, None);
    assert_eq!(options.no_cursor_timeout, None);
    assert_eq!(options.skip, 0);
    assert_eq!(options.sort, None);
}

#[test]
fn grid_fs_find_options_default() {
    let options = GridFSFindOptions::default();
    assert_eq!(options.allow_disk_use, None);
    assert_eq!(options.batch_size, None);
    assert_eq!(options.limit, None);
    assert_eq!(options.max_time, None);
    assert_eq!(options.no_cursor_timeout, None);
    assert_eq!(options.skip, 0);
    assert_eq!(options.sort, None);
}
