//! Laws that relate the bucket operations to one another.
//!
//! Each proof function here states a guarantee of the library across more
//! than one operation — uploading then downloading, provisioning twice,
//! deleting after uploading — over the same specification functions that the
//! operations' own contracts use. The single-operation guarantees live in
//! those contracts; the sort order of find queries is covered by
//! [`crate::bucket::find::lemma_sort_docs_spec`] and
//! [`crate::bucket::find::lemma_files_matching_complete`].

use crate::bucket::spec_effective_chunk_size;
use crate::bucket::upload::chunk_docs_for;
use crate::bucket::upload::ensure_spec;
use crate::bucket::upload::upload_spec;
use crate::bucket::BucketView;
use crate::chunking::chunks_of;
use crate::chunking::lemma_chunk_count_ceil;
use crate::chunking::lemma_chunks_of_flatten;
use crate::chunking::lemma_chunks_of_len;
use crate::chunking::lemma_chunks_of_sizes;
use crate::options::GridFSUploadOptionsView;
use crate::store::chunk_data;
use crate::store::chunks_of_file;
use crate::store::chunks_without;
use crate::store::file_index;
use crate::store::has_file;
use crate::store::lemma_chunks_of_file_absent;
use crate::store::lemma_chunks_of_file_all;
use crate::store::lemma_chunks_of_file_concat;
use crate::store::lemma_chunks_without_complete;
use crate::store::FileDocView;
use crate::store::StoreView;
use vstd::prelude::*;

verus! {

/// Round trip: uploading a byte sequence with a positive chunk size and
/// then concatenating, in order, the chunk payloads that a download of the
/// fresh id produces reproduces the bytes exactly.
pub proof fn lemma_upload_download_round_trip(
    b: BucketView,
    filename: Seq<char>,
    bytes: Seq<u8>,
    upload_options: Option<GridFSUploadOptionsView>,
    upload_date: i64,
)
    requires
        b.store.wf(),
        b.store.next_id < u64::MAX,
        spec_effective_chunk_size(b.options, upload_options) > 0,
    ensures
        ({
            let after = upload_spec(b, filename, bytes, upload_options, upload_date);
            let id = b.store.next_id;
            &&& has_file(after.store.files, id)
            &&& chunk_data(chunks_of_file(after.store.chunks, id)).flatten() == bytes
        }),
{
    let after = upload_spec(b, filename, bytes, upload_options, upload_date);
    let id = b.store.next_id;
    let c = spec_effective_chunk_size(b.options, upload_options);
    let docs = chunk_docs_for(id, bytes, c);
    assert(ensure_spec(b).store.chunks == b.store.chunks);
    assert(ensure_spec(b).store.next_id == id);
    assert(after.store.chunks == b.store.chunks + docs);
    lemma_chunks_of_file_concat(b.store.chunks, docs, id);
    lemma_chunks_of_file_absent(b.store.chunks, id);
    assert forall|i: int| 0 <= i < docs.len() implies (#[trigger] docs[i]).files_id == id by {}
    lemma_chunks_of_file_all(docs, id);
    assert(chunks_of_file(after.store.chunks, id) =~= docs);
    assert(chunk_data(docs) =~= chunks_of(bytes, c as int));
    lemma_chunks_of_flatten(bytes, c as int);
    assert(after.store.files[after.store.files.len() - 1].id == id);
    assert(has_file(after.store.files, id));
}

/// Chunk count: an upload with a positive chunk size `c` writes
/// `ceil(len / c)` chunk documents for a nonempty source, and none for an
/// empty one.
pub proof fn lemma_upload_chunk_count(
    b: BucketView,
    filename: Seq<char>,
    bytes: Seq<u8>,
    upload_options: Option<GridFSUploadOptionsView>,
    upload_date: i64,
)
    requires
        spec_effective_chunk_size(b.options, upload_options) > 0,
    ensures
        ({
            let after = upload_spec(b, filename, bytes, upload_options, upload_date);
            let c = spec_effective_chunk_size(b.options, upload_options) as int;
            after.store.chunks.len() - b.store.chunks.len() == (if bytes.len() == 0 {
                0int
            } else {
                (bytes.len() + c - 1) / c
            })
        }),
{
    let c = spec_effective_chunk_size(b.options, upload_options);
    lemma_chunks_of_len(bytes, c as int);
    lemma_chunk_count_ceil(bytes.len() as int, c as int);
    assert(ensure_spec(b).store.chunks == b.store.chunks);
}

/// Chunk sizes: every chunk an upload writes holds exactly `c` bytes except
/// the last, which holds `len % c` bytes — or `c` when the length is a
/// nonzero multiple of `c`.
pub proof fn lemma_upload_chunk_sizes(
    b: BucketView,
    filename: Seq<char>,
    bytes: Seq<u8>,
    upload_options: Option<GridFSUploadOptionsView>,
    upload_date: i64,
)
    requires
        spec_effective_chunk_size(b.options, upload_options) > 0,
    ensures
        ({
            let c = spec_effective_chunk_size(b.options, upload_options);
            let docs = chunk_docs_for(b.store.next_id, bytes, c);
            &&& upload_spec(b, filename, bytes, upload_options, upload_date).store.chunks
                == b.store.chunks + docs
            &&& forall|i: int|
                0 <= i < docs.len() - 1 ==> (#[trigger] docs[i]).data.len() == c
            &&& bytes.len() > 0 ==> docs.last().data.len() == (if bytes.len() as int % (
            c as int) == 0 {
                c as int
            } else {
                bytes.len() as int % (c as int)
            })
        }),
{
    let c = spec_effective_chunk_size(b.options, upload_options);
    lemma_chunks_of_sizes(bytes, c as int);
    lemma_chunks_of_len(bytes, c as int);
    assert(ensure_spec(b).store.chunks == b.store.chunks);
    assert(ensure_spec(b).store.next_id == b.store.next_id);
}

/// An upload only appends: every file document and chunk document present
/// before it is still present, unchanged and in place, afterwards —
/// concurrent uploads to different files never disturb one another's
/// documents.
pub proof fn lemma_upload_preserves_existing(
    b: BucketView,
    filename: Seq<char>,
    bytes: Seq<u8>,
    upload_options: Option<GridFSUploadOptionsView>,
    upload_date: i64,
)
    ensures
        ({
            let after = upload_spec(b, filename, bytes, upload_options, upload_date);
            &&& after.store.files.len() == b.store.files.len() + 1
            &&& forall|i: int|
                0 <= i < b.store.files.len() ==> after.store.files[i] == #[trigger] b.store.files[i]
            &&& forall|i: int|
                0 <= i < b.store.chunks.len() ==> after.store.chunks[i] == #[trigger] b.store.chunks[i]
        }),
{
    assert(ensure_spec(b).store.files == b.store.files);
    assert(ensure_spec(b).store.chunks == b.store.chunks);
}

/// Idempotence of index provisioning: running it twice on the same bucket
/// instance equals running it once — the second run touches nothing.
pub proof fn lemma_ensure_indexes_idempotent(b: BucketView)
    ensures
        ensure_spec(ensure_spec(b)) == ensure_spec(b),
{
    assert(!ensure_spec(b).never_write);
}

/// Deletion removes exactly one file document — the one carrying the id —
/// and exactly the chunks referencing it: no chunk of the file survives,
/// and every other document and chunk does.
pub proof fn lemma_delete_removes_exactly(s: StoreView, id: u64)
    requires
        s.wf(),
        has_file(s.files, id),
    ensures
        ({
            let nf = s.files.remove(file_index(s.files, id));
            let nc = chunks_without(s.chunks, id);
            &&& nf.len() == s.files.len() - 1
            &&& !has_file(nf, id)
            &&& forall|i: int| 0 <= i < nc.len() ==> (#[trigger] nc[i]).files_id != id
            &&& forall|i: int|
                0 <= i < s.chunks.len() && (#[trigger] s.chunks[i]).files_id != id ==> nc.contains(
                    s.chunks[i],
                )
            &&& forall|i: int|
                0 <= i < s.files.len() && (#[trigger] s.files[i]).id != id ==> nf.contains(
                    s.files[i],
                )
        }),
{
    let idx = file_index(s.files, id);
    assert(0 <= idx < s.files.len() && s.files[idx].id == id);
    let nf = s.files.remove(idx);
    s.files.remove_ensures(idx);
    lemma_chunks_without_complete(s.chunks, id);
    assert forall|i: int| 0 <= i < nf.len() implies (#[trigger] nf[i]).id != id by {
        if i < idx {
            assert(nf[i] == s.files[i]);
        } else {
            assert(nf[i] == s.files[i + 1]);
        }
    }
    if has_file(nf, id) {
        let w = choose|w: int| 0 <= w < nf.len() && (#[trigger] nf[w]).id == id;
        assert(nf[w].id != id);
    }
    assert forall|i: int|
        0 <= i < s.files.len() && (#[trigger] s.files[i]).id != id implies nf.contains(
        s.files[i],
    ) by {
        if i < idx {
            assert(nf[i] == s.files[i]);
        } else {
            assert(i > idx);
            assert(nf[i - 1] == s.files[i]);
        }
    }
}

/// A rename changes the filename field alone: every other field of the
/// renamed document, and every other document, is unchanged.
pub proof fn lemma_rename_changes_only_filename(
    files: Seq<FileDocView>,
    idx: int,
    name: Seq<char>,
)
    requires
        0 <= idx < files.len(),
    ensures
        ({
            let nf = files.update(idx, FileDocView { filename: name, ..files[idx] });
            &&& nf.len() == files.len()
            &&& nf[idx].filename == name
            &&& nf[idx].id == files[idx].id
            &&& nf[idx].chunk_size == files[idx].chunk_size
            &&& nf[idx].length == files[idx].length
            &&& nf[idx].upload_date == files[idx].upload_date
            &&& nf[idx].md5 == files[idx].md5
            &&& nf[idx].metadata == files[idx].metadata
            &&& forall|j: int| 0 <= j < files.len() && j != idx ==> nf[j] == #[trigger] files[j]
        }),
{
}

} // verus!
