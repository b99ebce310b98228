//! In-memory model of the two collections that make up one bucket.
//!
//! A [`DocumentStore`] stands for the `<prefix>.files` and `<prefix>.chunks`
//! collections of one bucket, together with the bookkeeping the index
//! provisioner reads: whether each collection exists and which index keys it
//! carries. File ids, generated by the store, are modeled as integers drawn
//! from a per-store counter. The unverified shell keeps the same documents in
//! a real deployment; here every catalog operation is verified against this
//! model.

use vstd::prelude::*;

verus! {

/// One stored file's catalog record.
///
/// `length`, `upload_date` and `md5` are absent until the writer's finalize
/// step; `md5` stays absent when checksums are disabled. `metadata` carries
/// the caller's free-form document as raw bytes and is omitted when not
/// supplied.
pub struct FileDoc {
    /// Store-generated identifier.
    pub id: u64,
    pub filename: String,
    /// Declared chunk size in bytes; fixed at creation.
    pub chunk_size: u32,
    /// Total length in bytes, set only after the upload completes.
    pub length: Option<u64>,
    /// Completion timestamp in milliseconds, set with `length`.
    pub upload_date: Option<i64>,
    /// Lowercase hexadecimal digest of the file's bytes, when enabled.
    pub md5: Option<String>,
    /// Free-form metadata document, as raw bytes.
    pub metadata: Option<Vec<u8>>,
}

/// Mathematical model of [`FileDoc`].
#[verifier::ext_equal]
pub ghost struct FileDocView {
    pub id: u64,
    pub filename: Seq<char>,
    pub chunk_size: u32,
    pub length: Option<u64>,
    pub upload_date: Option<i64>,
    pub md5: Option<Seq<char>>,
    pub metadata: Option<Seq<u8>>,
}

impl View for FileDoc {
    type V = FileDocView;

    open spec fn view(&self) -> FileDocView {
        FileDocView {
            id: self.id,
            filename: self.filename@,
            chunk_size: self.chunk_size,
            length: self.length,
            upload_date: self.upload_date,
            md5: match self.md5 {
                Some(s) => Some(s@),
                None => None,
            },
            metadata: match self.metadata {
                Some(m) => Some(m@),
                None => None,
            },
        }
    }
}

impl Clone for FileDoc {
    fn clone(&self) -> (r: FileDoc)
        ensures
            r@ == self@,
    {
        FileDoc {
            id: self.id,
            filename: self.filename.clone(),
            chunk_size: self.chunk_size,
            length: self.length,
            upload_date: self.upload_date,
            md5: match &self.md5 {
                Some(s) => Some(s.clone()),
                None => None,
            },
            metadata: match &self.metadata {
                Some(m) => {
                    let c = m.clone();
                    proof {
                        assert(c@ =~= m@);
                    }
                    Some(c)
                },
                None => None,
            },
        }
    }
}

/// One bounded fragment of a stored file's bytes.
pub struct ChunkDoc {
    /// Identifier of the owning file document.
    pub files_id: u64,
    /// Zero-based sequence number within the file.
    pub n: u32,
    /// Raw payload.
    pub data: Vec<u8>,
}

/// Mathematical model of [`ChunkDoc`].
#[verifier::ext_equal]
pub ghost struct ChunkDocView {
    pub files_id: u64,
    pub n: u32,
    pub data: Seq<u8>,
}

impl View for ChunkDoc {
    type V = ChunkDocView;

    open spec fn view(&self) -> ChunkDocView {
        ChunkDocView { files_id: self.files_id, n: self.n, data: self.data@ }
    }
}

impl Clone for ChunkDoc {
    fn clone(&self) -> (r: ChunkDoc)
        ensures
            r@ == self@,
    {
        let data = self.data.clone();
        proof {
            assert(data@ =~= self.data@);
        }
        ChunkDoc { files_id: self.files_id, n: self.n, data }
    }
}

/// One field's value inside an index key document, as the provisioner reads
/// it: the ascending marker may arrive as an integer or as a floating-point
/// value, which is carried here by its bit pattern.
#[derive(Clone, Copy, Debug, PartialEq, Eq, Structural)]
pub enum IndexMarker {
    /// An integer-valued marker.
    Int(i64),
    /// A floating-point marker, by the bits of its 64-bit representation.
    DoubleBits(u64),
    /// Any other value, or an absent field.
    Other,
}

/// The bit pattern of the floating-point value one.
pub const F64_ONE_BITS: u64 = 0x3FF0_0000_0000_0000;

/// An ascending marker is the integer 1 or a floating-point value numerically
/// equal to 1, in any combination across the compared key fields.
pub open spec fn is_ascending_spec(m: IndexMarker) -> bool {
    m == IndexMarker::Int(1i64) || m == IndexMarker::DoubleBits(F64_ONE_BITS)
}

/// Normalizes the ascending-marker duck-typing: integer 1 and floating-point
/// 1 both count as ascending.
pub fn is_ascending(m: IndexMarker) -> (r: bool)
    ensures
        r == is_ascending_spec(m),
{
    match m {
        IndexMarker::Int(v) => v == 1,
        IndexMarker::DoubleBits(b) => b == F64_ONE_BITS,
        IndexMarker::Other => false,
    }
}

/// One index's key, reduced to the values of the two required fields —
/// `{filename, uploadDate}` on the files collection, `{files_id, n}` on the
/// chunks collection. The shell extracts them by name; other key fields are
/// ignored.
#[derive(Clone, Copy, Debug, PartialEq, Eq, Structural)]
pub struct IndexKey {
    pub first: IndexMarker,
    pub second: IndexMarker,
}

/// An index satisfies the requirement when both required fields carry an
/// ascending marker.
pub open spec fn index_key_matches_spec(k: IndexKey) -> bool {
    is_ascending_spec(k.first) && is_ascending_spec(k.second)
}

/// Decides whether one index key satisfies the required compound ascending
/// key.
pub fn index_key_matches(k: IndexKey) -> (r: bool)
    ensures
        r == index_key_matches_spec(k),
{
    is_ascending(k.first) && is_ascending(k.second)
}

/// Whether some index in the list satisfies the requirement.
pub open spec fn has_matching_index(keys: Seq<IndexKey>) -> bool {
    exists|i: int| 0 <= i < keys.len() && index_key_matches_spec(keys[i])
}

/// Scans a collection's index keys for one that satisfies the required
/// compound ascending key.
pub fn any_index_matches(keys: &Vec<IndexKey>) -> (r: bool)
    ensures
        r == has_matching_index(keys@),
{
    let mut i: usize = 0;
    let mut found = false;
    while i < keys.len()
        invariant
            i <= keys@.len(),
            found == has_matching_index(keys@.take(i as int)),
        decreases keys@.len() - i,
    {
        let m = index_key_matches(keys[i]);
        proof {
            let pre = keys@.take(i as int);
            let cur = keys@.take(i as int + 1);
            assert(cur[i as int] == keys@[i as int]);
            if index_key_matches_spec(keys@[i as int]) {
                assert(has_matching_index(cur));
            } else {
                if has_matching_index(cur) {
                    let j = choose|j: int|
                        0 <= j < cur.len() && index_key_matches_spec(#[trigger] cur[j]);
                    if j < i as int {
                        assert(pre[j] == cur[j]);
                        assert(has_matching_index(pre));
                    }
                }
                if has_matching_index(pre) {
                    let j = choose|j: int|
                        0 <= j < pre.len() && index_key_matches_spec(#[trigger] pre[j]);
                    assert(cur[j] == pre[j]);
                    assert(has_matching_index(cur));
                }
            }
        }
        if m {
            found = true;
        }
        i = i + 1;
    }
    proof {
        assert(keys@.take(keys@.len() as int) =~= keys@);
    }
    found
}

/// The key issued by a create-index request on the files collection:
/// `{filename: 1, uploadDate: 1.0}`.
pub open spec fn files_index_key() -> IndexKey {
    IndexKey { first: IndexMarker::Int(1i64), second: IndexMarker::DoubleBits(F64_ONE_BITS) }
}

/// The key issued by a create-index request on the chunks collection:
/// `{files_id: 1, n: 1}`.
pub open spec fn chunks_index_key() -> IndexKey {
    IndexKey { first: IndexMarker::Int(1i64), second: IndexMarker::Int(1i64) }
}

/// The two collections of one bucket, with the bookkeeping the index
/// provisioner reads.
pub struct DocumentStore {
    /// The files collection.
    pub files: Vec<FileDoc>,
    /// The chunks collection.
    pub chunks: Vec<ChunkDoc>,
    /// Whether the files collection exists.
    pub files_collection_exists: bool,
    /// Whether the chunks collection exists.
    pub chunks_collection_exists: bool,
    /// The index keys present on the files collection.
    pub files_indexes: Vec<IndexKey>,
    /// The index keys present on the chunks collection.
    pub chunks_indexes: Vec<IndexKey>,
    /// Source of store-generated file ids.
    pub next_id: u64,
}

/// Mathematical model of [`DocumentStore`].
#[verifier::ext_equal]
pub ghost struct StoreView {
    pub files: Seq<FileDocView>,
    pub chunks: Seq<ChunkDocView>,
    pub files_collection_exists: bool,
    pub chunks_collection_exists: bool,
    pub files_indexes: Seq<IndexKey>,
    pub chunks_indexes: Seq<IndexKey>,
    pub next_id: u64,
}

impl View for DocumentStore {
    type V = StoreView;

    open spec fn view(&self) -> StoreView {
        StoreView {
            files: self.files@.map_values(|d: FileDoc| d@),
            chunks: self.chunks@.map_values(|c: ChunkDoc| c@),
            files_collection_exists: self.files_collection_exists,
            chunks_collection_exists: self.chunks_collection_exists,
            files_indexes: self.files_indexes@,
            chunks_indexes: self.chunks_indexes@,
            next_id: self.next_id,
        }
    }
}

/// No two file documents share an id.
pub open spec fn files_unique(files: Seq<FileDocView>) -> bool {
    forall|i: int, j: int|
        0 <= i < j < files.len() ==> (#[trigger] files[i]).id != (#[trigger] files[j]).id
}

/// Within one file, chunks appear in strictly increasing sequence order, so
/// in particular no two chunks of a file share a sequence number.
pub open spec fn chunks_ordered(chunks: Seq<ChunkDocView>) -> bool {
    forall|i: int, j: int|
        0 <= i < j < chunks.len() && (#[trigger] chunks[i]).files_id == (#[trigger] chunks[j]).files_id
            ==> chunks[i].n < chunks[j].n
}

impl StoreView {
    /// Well-formedness: ids are unique and below the id counter, and each
    /// file's chunks are stored in increasing sequence order. Orphaned
    /// chunks — whose file document is gone — are allowed.
    pub open spec fn wf(self) -> bool {
        &&& files_unique(self.files)
        &&& forall|i: int| 0 <= i < self.files.len() ==> (#[trigger] self.files[i]).id < self.next_id
        &&& forall|i: int|
            0 <= i < self.chunks.len() ==> (#[trigger] self.chunks[i]).files_id < self.next_id
        &&& chunks_ordered(self.chunks)
    }

    /// An empty store.
    pub open spec fn empty() -> StoreView {
        StoreView {
            files: Seq::empty(),
            chunks: Seq::empty(),
            files_collection_exists: false,
            chunks_collection_exists: false,
            files_indexes: Seq::empty(),
            chunks_indexes: Seq::empty(),
            next_id: 0,
        }
    }
}

impl DocumentStore {
    /// Creates an empty store: no collections, no documents, no indexes.
    pub fn new() -> (r: DocumentStore)
        ensures
            r@ == StoreView::empty(),
            r@.wf(),
    {
        let r = DocumentStore {
            files: Vec::new(),
            chunks: Vec::new(),
            files_collection_exists: false,
            chunks_collection_exists: false,
            files_indexes: Vec::new(),
            chunks_indexes: Vec::new(),
            next_id: 0,
        };
        proof {
            assert(r@ =~= StoreView::empty());
        }
        r
    }
}

/// Whether some file document carries `id`.
pub open spec fn has_file(files: Seq<FileDocView>, id: u64) -> bool {
    exists|i: int| 0 <= i < files.len() && (#[trigger] files[i]).id == id
}

/// The index of the file document carrying `id`; meaningful only when
/// [`has_file`] holds and ids are unique.
pub open spec fn file_index(files: Seq<FileDocView>, id: u64) -> int {
    choose|i: int| 0 <= i < files.len() && (#[trigger] files[i]).id == id
}

/// Under unique ids, any position holding `id` is the [`file_index`].
pub proof fn lemma_file_index_unique(files: Seq<FileDocView>, id: u64, i: int)
    requires
        files_unique(files),
        0 <= i < files.len(),
        files[i].id == id,
    ensures
        has_file(files, id),
        file_index(files, id) == i,
{
    assert(has_file(files, id));
    let j = file_index(files, id);
    if i < j {
        assert(files[i].id != files[j].id);
    } else if j < i {
        assert(files[j].id != files[i].id);
    }
}

/// The chunks that do not reference `id`, in stored order.
pub open spec fn chunks_without(chunks: Seq<ChunkDocView>, id: u64) -> Seq<ChunkDocView>
    decreases chunks.len(),
{
    if chunks.len() == 0 {
        Seq::empty()
    } else {
        let rest = chunks_without(chunks.drop_last(), id);
        if chunks.last().files_id == id {
            rest
        } else {
            rest.push(chunks.last())
        }
    }
}

/// The chunks that reference `id`, in stored order.
pub open spec fn chunks_of_file(chunks: Seq<ChunkDocView>, id: u64) -> Seq<ChunkDocView>
    decreases chunks.len(),
{
    if chunks.len() == 0 {
        Seq::empty()
    } else {
        let rest = chunks_of_file(chunks.drop_last(), id);
        if chunks.last().files_id == id {
            rest.push(chunks.last())
        } else {
            rest
        }
    }
}

/// The payloads of a chunk list, in order.
pub open spec fn chunk_data(chunks: Seq<ChunkDocView>) -> Seq<Seq<u8>> {
    chunks.map_values(|c: ChunkDocView| c.data)
}

/// Unfolds [`chunks_without`] over a push.
pub proof fn lemma_chunks_without_push(chunks: Seq<ChunkDocView>, c: ChunkDocView, id: u64)
    ensures
        chunks_without(chunks.push(c), id) == if c.files_id == id {
            chunks_without(chunks, id)
        } else {
            chunks_without(chunks, id).push(c)
        },
{
    assert(chunks.push(c).drop_last() =~= chunks);
}

/// Unfolds [`chunks_of_file`] over a push.
pub proof fn lemma_chunks_of_file_push(chunks: Seq<ChunkDocView>, c: ChunkDocView, id: u64)
    ensures
        chunks_of_file(chunks.push(c), id) == if c.files_id == id {
            chunks_of_file(chunks, id).push(c)
        } else {
            chunks_of_file(chunks, id)
        },
{
    assert(chunks.push(c).drop_last() =~= chunks);
}

/// Every chunk kept by [`chunks_without`] avoids `id` and occurs in the
/// original list, and every chunk of another file is kept.
pub proof fn lemma_chunks_without_complete(chunks: Seq<ChunkDocView>, id: u64)
    ensures
        forall|i: int|
            0 <= i < chunks_without(chunks, id).len()
                ==> (#[trigger] chunks_without(chunks, id)[i]).files_id != id,
        forall|i: int|
            0 <= i < chunks_without(chunks, id).len() ==> chunks.contains(
                #[trigger] chunks_without(chunks, id)[i],
            ),
        forall|i: int|
            0 <= i < chunks.len() && (#[trigger] chunks[i]).files_id != id
                ==> chunks_without(chunks, id).contains(chunks[i]),
    decreases chunks.len(),
{
    if chunks.len() > 0 {
        lemma_chunks_without_complete(chunks.drop_last(), id);
        let prev = chunks_without(chunks.drop_last(), id);
        let cur = chunks_without(chunks, id);
        assert forall|i: int| 0 <= i < cur.len() implies chunks.contains(#[trigger] cur[i]) by {
            if chunks.last().files_id != id && i == cur.len() - 1 {
                assert(cur[i] == chunks.last());
                assert(chunks[chunks.len() - 1] == chunks.last());
            } else {
                assert(cur[i] == prev[i]);
                assert(chunks.drop_last().contains(prev[i]));
                let w = choose|w: int|
                    0 <= w < chunks.drop_last().len() && chunks.drop_last()[w] == prev[i];
                assert(chunks[w] == prev[i]);
            }
        }
        assert forall|i: int|
            0 <= i < chunks.len() && (#[trigger] chunks[i]).files_id != id implies cur.contains(
            chunks[i],
        ) by {
            if i < chunks.len() - 1 {
                assert(chunks.drop_last()[i] == chunks[i]);
                assert(prev.contains(chunks[i]));
                let w = choose|w: int| 0 <= w < prev.len() && prev[w] == chunks[i];
                if chunks.last().files_id == id {
                    assert(cur[w] == chunks[i]);
                } else {
                    assert(cur[w] == chunks[i]);
                }
            } else {
                assert(cur.last() == chunks[i]);
            }
        }
    }
}

/// Dropping the chunks of one file keeps the rest in their stored order.
pub proof fn lemma_chunks_without_ordered(chunks: Seq<ChunkDocView>, id: u64)
    requires
        chunks_ordered(chunks),
    ensures
        chunks_ordered(chunks_without(chunks, id)),
    decreases chunks.len(),
{
    if chunks.len() > 0 {
        let rest = chunks.drop_last();
        assert(chunks_ordered(rest)) by {
            assert forall|i: int, j: int|
                0 <= i < j < rest.len() && (#[trigger] rest[i]).files_id == (
                #[trigger] rest[j]).files_id implies rest[i].n < rest[j].n by {
                assert(rest[i] == chunks[i] && rest[j] == chunks[j]);
            }
        }
        lemma_chunks_without_ordered(rest, id);
        lemma_chunks_without_complete(rest, id);
        let prev = chunks_without(rest, id);
        let cur = chunks_without(chunks, id);
        if chunks.last().files_id != id {
            assert forall|i: int, j: int|
                0 <= i < j < cur.len() && (#[trigger] cur[i]).files_id == (
                #[trigger] cur[j]).files_id implies cur[i].n < cur[j].n by {
                if j < cur.len() - 1 {
                    assert(cur[i] == prev[i] && cur[j] == prev[j]);
                } else {
                    assert(cur[i] == prev[i]);
                    assert(cur[j] == chunks.last());
                    assert(rest.contains(prev[i]));
                    let w = choose|w: int| 0 <= w < rest.len() && rest[w] == prev[i];
                    assert(chunks[w] == prev[i]);
                    assert(chunks[chunks.len() - 1] == chunks.last());
                }
            }
        }
    }
}

/// Deleting a file document and its chunks keeps the store well formed.
pub proof fn lemma_remove_file_wf(s: StoreView, idx: int)
    requires
        s.wf(),
        0 <= idx < s.files.len(),
    ensures
        (StoreView {
            files: s.files.remove(idx),
            chunks: chunks_without(s.chunks, s.files[idx].id),
            ..s
        }).wf(),
{
    let id = s.files[idx].id;
    let nf = s.files.remove(idx);
    s.files.remove_ensures(idx);
    assert forall|i: int, j: int| 0 <= i < j < nf.len() implies (#[trigger] nf[i]).id != (
    #[trigger] nf[j]).id by {
        let oi = if i < idx {
            i
        } else {
            i + 1
        };
        let oj = if j < idx {
            j
        } else {
            j + 1
        };
        assert(nf[i] == s.files[oi]);
        assert(nf[j] == s.files[oj]);
    }
    assert forall|i: int| 0 <= i < nf.len() implies (#[trigger] nf[i]).id < s.next_id by {
        let oi = if i < idx {
            i
        } else {
            i + 1
        };
        assert(nf[i] == s.files[oi]);
    }
    lemma_chunks_without_complete(s.chunks, id);
    lemma_chunks_without_ordered(s.chunks, id);
    let nc = chunks_without(s.chunks, id);
    assert forall|i: int| 0 <= i < nc.len() implies (#[trigger] nc[i]).files_id < s.next_id by {
        assert(s.chunks.contains(nc[i]));
        let w = choose|w: int| 0 <= w < s.chunks.len() && s.chunks[w] == nc[i];
        assert(s.chunks[w].files_id < s.next_id);
    }
}

/// [`chunks_of_file`] distributes over concatenation.
pub proof fn lemma_chunks_of_file_concat(a: Seq<ChunkDocView>, b: Seq<ChunkDocView>, id: u64)
    ensures
        chunks_of_file(a + b, id) == chunks_of_file(a, id) + chunks_of_file(b, id),
    decreases b.len(),
{
    if b.len() == 0 {
        assert(a + b =~= a);
        assert(chunks_of_file(a, id) + chunks_of_file(b, id) =~= chunks_of_file(a, id));
    } else {
        lemma_chunks_of_file_concat(a, b.drop_last(), id);
        assert((a + b).drop_last() =~= a + b.drop_last());
        assert((a + b).last() == b.last());
        if b.last().files_id == id {
            assert(chunks_of_file(a, id) + chunks_of_file(b.drop_last(), id).push(b.last()) =~= (
            chunks_of_file(a, id) + chunks_of_file(b.drop_last(), id)).push(b.last()));
        }
    }
}

/// A list without chunks of `id` selects nothing for `id`.
pub proof fn lemma_chunks_of_file_absent(chunks: Seq<ChunkDocView>, id: u64)
    requires
        forall|i: int| 0 <= i < chunks.len() ==> (#[trigger] chunks[i]).files_id != id,
    ensures
        chunks_of_file(chunks, id) == Seq::<ChunkDocView>::empty(),
    decreases chunks.len(),
{
    if chunks.len() > 0 {
        assert(chunks[chunks.len() - 1].files_id != id);
        assert forall|i: int| 0 <= i < chunks.drop_last().len() implies (
        #[trigger] chunks.drop_last()[i]).files_id != id by {
            assert(chunks.drop_last()[i] == chunks[i]);
        }
        lemma_chunks_of_file_absent(chunks.drop_last(), id);
    }
}

/// A list made only of chunks of `id` is selected whole.
pub proof fn lemma_chunks_of_file_all(chunks: Seq<ChunkDocView>, id: u64)
    requires
        forall|i: int| 0 <= i < chunks.len() ==> (#[trigger] chunks[i]).files_id == id,
    ensures
        chunks_of_file(chunks, id) == chunks,
    decreases chunks.len(),
{
    if chunks.len() > 0 {
        assert(chunks[chunks.len() - 1].files_id == id);
        assert forall|i: int| 0 <= i < chunks.drop_last().len() implies (
        #[trigger] chunks.drop_last()[i]).files_id == id by {
            assert(chunks.drop_last()[i] == chunks[i]);
        }
        lemma_chunks_of_file_all(chunks.drop_last(), id);
        assert(chunks.drop_last().push(chunks.last()) =~= chunks);
    }
}

} // verus!
