//! The chunk writer and the lazy index provisioner.
//!
//! An upload resolves its chunk size, runs index provisioning once per
//! bucket instance, inserts a file document, streams the source into chunk
//! documents in increasing sequence order, and finalizes the file document
//! with length, timestamp and — unless disabled — checksum. The whole effect
//! on the store is pinned by [`upload_spec`].

use crate::bucket::spec_disable_md5;
use crate::bucket::spec_effective_chunk_size;
use crate::bucket::spec_upload_metadata;
use crate::bucket::upload_options_view;
use crate::bucket::BucketView;
use crate::bucket::GridFSBucket;
use crate::chunking::chunk_count;
use crate::chunking::chunks_of;
use crate::chunking::lemma_chunk_count_bounds;
use crate::chunking::lemma_chunk_count_le;
use crate::chunking::lemma_chunks_of_index;
use crate::chunking::lemma_chunks_of_len;
use crate::clock::now_millis;
use crate::digest::md5_hex;
use crate::digest::md5_hex_of;
use crate::options::GridFSBucketOptionsView;
use crate::options::GridFSUploadOptions;
use crate::options::GridFSUploadOptionsView;
use crate::options::ProgressUpdate;
use crate::store::chunks_index_key;
use crate::store::files_index_key;
use crate::store::any_index_matches;
use crate::store::has_matching_index;
use crate::store::ChunkDoc;
use crate::store::ChunkDocView;
use crate::store::FileDoc;
use crate::store::FileDocView;
use crate::store::IndexKey;
use crate::store::IndexMarker;
use crate::store::StoreView;
use crate::store::F64_ONE_BITS;
use vstd::prelude::*;
use vstd::slice::slice_subrange;
use vstd::slice::slice_to_vec;

verus! {

/// The store after index provisioning has run on it: both collections
/// exist, and each carries a matching index, created when none was present.
pub open spec fn provision_spec(s: StoreView) -> StoreView {
    StoreView {
        files_collection_exists: true,
        chunks_collection_exists: true,
        files_indexes: if has_matching_index(s.files_indexes) {
            s.files_indexes
        } else {
            s.files_indexes.push(files_index_key())
        },
        chunks_indexes: if has_matching_index(s.chunks_indexes) {
            s.chunks_indexes
        } else {
            s.chunks_indexes.push(chunks_index_key())
        },
        ..s
    }
}

/// The bucket after [`GridFSBucket::ensure_file_index`]: nothing happens
/// unless this is the instance's first write, provisioning is skipped when
/// the files collection already holds a document, and the flag is cleared
/// either way.
pub open spec fn ensure_spec(b: BucketView) -> BucketView {
    if !b.never_write {
        b
    } else {
        BucketView {
            never_write: false,
            store: if b.store.files.len() == 0 {
                provision_spec(b.store)
            } else {
                b.store
            },
            ..b
        }
    }
}

/// The chunk documents an upload of `bytes` under chunk size `c` writes for
/// file `id`: one per piece, numbered from zero in order.
pub open spec fn chunk_docs_for(id: u64, bytes: Seq<u8>, c: u32) -> Seq<ChunkDocView> {
    Seq::new(
        chunks_of(bytes, c as int).len(),
        |i: int|
            ChunkDocView { files_id: id, n: i as u32, data: chunks_of(bytes, c as int)[i] },
    )
}

/// The finalized file document an upload writes: length and timestamp set,
/// checksum present exactly when enabled, metadata exactly when supplied.
pub open spec fn upload_file_doc(
    id: u64,
    filename: Seq<char>,
    c: u32,
    bytes: Seq<u8>,
    disable_md5: bool,
    metadata: Option<Seq<u8>>,
    upload_date: i64,
) -> FileDocView {
    FileDocView {
        id,
        filename,
        chunk_size: c,
        length: Some(
            if c == 0 {
                0u64
            } else {
                bytes.len() as u64
            },
        ),
        upload_date: Some(upload_date),
        md5: if disable_md5 {
            None
        } else {
            Some(md5_hex_of(bytes))
        },
        metadata,
    }
}

/// The bucket after an upload: provisioning has run, one finalized file
/// document and its chunk documents were appended, and the id counter moved
/// past the fresh id.
pub open spec fn upload_spec(
    b: BucketView,
    filename: Seq<char>,
    bytes: Seq<u8>,
    upload_options: Option<GridFSUploadOptionsView>,
    upload_date: i64,
) -> BucketView {
    let b1 = ensure_spec(b);
    let c = spec_effective_chunk_size(b.options, upload_options);
    let id = b1.store.next_id;
    BucketView {
        store: StoreView {
            files: b1.store.files.push(
                upload_file_doc(
                    id,
                    filename,
                    c,
                    bytes,
                    spec_disable_md5(b.options),
                    spec_upload_metadata(upload_options),
                    upload_date,
                ),
            ),
            chunks: b1.store.chunks + chunk_docs_for(id, bytes, c),
            next_id: (id + 1) as u64,
            ..b1.store
        },
        ..b1
    }
}

/// Whether the number of chunks an upload would write fits the sequence
/// counter — a machine limit: at most `u32::MAX` chunks.
pub open spec fn chunk_count_fits(
    options: Option<GridFSBucketOptionsView>,
    upload_options: Option<GridFSUploadOptionsView>,
    len: int,
) -> bool {
    spec_effective_chunk_size(options, upload_options) > 0 ==> len <= (spec_effective_chunk_size(
        options,
        upload_options,
    ) as int) * (u32::MAX as int)
}

/// A progress sink that ignores every update.
struct NoProgress;

impl ProgressUpdate for NoProgress {
    fn update(&self, _position: usize) {
    }
}

impl GridFSBucket {
    /// Issues the create-index request for the files collection, with key
    /// `{filename: 1, uploadDate: 1.0}`.
    pub fn create_files_index(&mut self)
        ensures
            final(self)@ == (BucketView {
                store: StoreView {
                    files_indexes: old(self)@.store.files_indexes.push(files_index_key()),
                    ..old(self)@.store
                },
                ..old(self)@
            }),
    {
        self.store.files_indexes.push(
            IndexKey {
                first: IndexMarker::Int(1),
                second: IndexMarker::DoubleBits(F64_ONE_BITS),
            },
        );
        proof {
            assert(final(self)@ =~~= (BucketView {
                store: StoreView {
                    files_indexes: old(self)@.store.files_indexes.push(files_index_key()),
                    ..old(self)@.store
                },
                ..old(self)@
            }));
        }
    }

    /// Issues the create-index request for the chunks collection, with key
    /// `{files_id: 1, n: 1}`.
    pub fn create_chunks_index(&mut self)
        ensures
            final(self)@ == (BucketView {
                store: StoreView {
                    chunks_indexes: old(self)@.store.chunks_indexes.push(chunks_index_key()),
                    ..old(self)@.store
                },
                ..old(self)@
            }),
    {
        self.store.chunks_indexes.push(
            IndexKey { first: IndexMarker::Int(1), second: IndexMarker::Int(1) },
        );
        proof {
            assert(final(self)@ =~~= (BucketView {
                store: StoreView {
                    chunks_indexes: old(self)@.store.chunks_indexes.push(chunks_index_key()),
                    ..old(self)@.store
                },
                ..old(self)@
            }));
        }
    }

    /// Ensures the required indexes exist before this instance's first
    /// write; see [`ensure_spec`]. On later calls the store is untouched.
    /// A nonempty files collection is taken as proof that indexing was
    /// already established; index absence is not otherwise verified.
    pub fn ensure_file_index(&mut self)
        ensures
            final(self)@ == ensure_spec(old(self)@),
    {
        let ghost pre = self@;
        if self.never_write {
            if self.store.files.len() == 0 {
                if !self.store.files_collection_exists {
                    self.store.files_collection_exists = true;
                }
                let have_files_index = any_index_matches(&self.store.files_indexes);
                if !have_files_index {
                    self.create_files_index();
                }
                if !self.store.chunks_collection_exists {
                    self.store.chunks_collection_exists = true;
                }
                let have_chunks_index = any_index_matches(&self.store.chunks_indexes);
                if !have_chunks_index {
                    self.create_chunks_index();
                }
            }
            self.never_write = false;
        }
        proof {
            assert(self@ =~~= ensure_spec(pre));
        }
    }

    /// The verified body shared by the upload entry points: uploads
    /// `source` as chunks under `filename`, finalizing with `upload_date`.
    fn upload_inner<P: ProgressUpdate>(
        &mut self,
        filename: &str,
        source: &[u8],
        options: Option<GridFSUploadOptions>,
        progress: Option<&P>,
        upload_date: i64,
    ) -> (id: u64)
        requires
            old(self)@.store.wf(),
            old(self)@.store.next_id < u64::MAX,
            chunk_count_fits(
                old(self)@.options,
                upload_options_view(options),
                source@.len() as int,
            ),
        ensures
            final(self)@ == upload_spec(
                old(self)@,
                filename@,
                source@,
                upload_options_view(options),
                upload_date,
            ),
            id == old(self)@.store.next_id,
            final(self)@.store.wf(),
    {
        let ghost pre = self@;
        let c = self.effective_chunk_size(&options);
        let disable = self.checksum_disabled();
        self.ensure_file_index();
        let id = self.store.next_id;
        self.store.next_id = id + 1;
        let md5_value: Option<String> = if disable {
            None
        } else {
            Some(md5_hex(source))
        };
        let metadata: Option<Vec<u8>> = match options {
            Some(o) => o.metadata,
            None => None,
        };
        let length: u64 = if c == 0 {
            0
        } else {
            source.len() as u64
        };
        let doc = FileDoc {
            id,
            filename: filename.to_owned(),
            chunk_size: c,
            length: Some(length),
            upload_date: Some(upload_date),
            md5: md5_value,
            metadata,
        };
        proof {
            assert(doc@ =~= upload_file_doc(
                id,
                filename@,
                c,
                source@,
                spec_disable_md5(pre.options),
                spec_upload_metadata(upload_options_view(options)),
                upload_date,
            ));
        }
        self.store.files.push(doc);
        let ghost mid = self@;
        let ghost pieces = chunks_of(source@, c as int);
        let ghost docs = chunk_docs_for(id, source@, c);
        let ghost k = chunk_count(source@.len() as int, c as int);
        proof {
            lemma_chunks_of_len(source@, c as int);
            if c > 0 {
                lemma_chunk_count_le(source@.len() as int, c as int, u32::MAX as int);
            }
            assert(mid.store.chunks + docs.take(0) =~= mid.store.chunks);
        }
        if c > 0 {
            let cs = c as usize;
            let mut pos: usize = 0;
            let mut n: usize = 0;
            proof {
                assert(0 * (c as int) == 0) by (nonlinear_arith);
                if source@.len() > 0 {
                    lemma_chunk_count_bounds(source@.len() as int, c as int);
                }
            }
            while pos < source.len()
                invariant
                    cs == c as usize,
                    c > 0,
                    k == chunk_count(source@.len() as int, c as int),
                    k <= u32::MAX as int,
                    pieces == chunks_of(source@, c as int),
                    docs == chunk_docs_for(id, source@, c),
                    docs.len() == k,
                    n as int <= k,
                    pos <= source@.len(),
                    if (n as int) < k {
                        pos as int == n as int * c as int
                    } else {
                        pos as int == source@.len() && n as int == k
                    },
                    self@ == (BucketView {
                        store: StoreView {
                            chunks: mid.store.chunks + docs.take(n as int),
                            ..mid.store
                        },
                        ..mid
                    }),
                decreases source@.len() - pos,
            {
                proof {
                    if source@.len() > 0 {
                        lemma_chunk_count_bounds(source@.len() as int, c as int);
                    }
                }
                let remaining = source.len() - pos;
                let take = if remaining < cs {
                    remaining
                } else {
                    cs
                };
                let piece = slice_to_vec(slice_subrange(source, pos, pos + take));
                proof {
                    lemma_chunks_of_index(source@, c as int, n as int);
                    assert((n as int + 1) * (c as int) == n as int * (c as int) + c as int)
                        by (nonlinear_arith);
                    assert(piece@ =~= pieces[n as int]);
                }
                let chunk = ChunkDoc { files_id: id, n: n as u32, data: piece };
                let ghost chunk_view = chunk@;
                self.store.chunks.push(chunk);
                pos = pos + take;
                n = n + 1;
                if let Some(p) = progress {
                    p.update(pos);
                }
                proof {
                    let ci = c as int;
                    let li = source@.len() as int;
                    let n0 = n as int - 1;
                    let n1 = n as int;
                    assert(n0 < k);
                    assert(chunk_view == docs[n0]);
                    assert(docs.take(n1) =~= docs.take(n0).push(docs[n0]));
                    assert(self@.store.chunks =~~= (mid.store.chunks + docs.take(n0)).push(
                        chunk_view,
                    ));
                    assert((mid.store.chunks + docs.take(n0)).push(docs[n0]) =~~= mid.store.chunks
                        + docs.take(n1));
                    assert(self@ =~~= (BucketView {
                        store: StoreView {
                            chunks: mid.store.chunks + docs.take(n1),
                            ..mid.store
                        },
                        ..mid
                    }));
                    if pos < source.len() {
                        assert(pos as int == n1 * ci);
                        assert(n1 < k) by (nonlinear_arith)
                            requires
                                ci > 0,
                                n1 * ci < li,
                                li <= k * ci,
                        ;
                    } else {
                        assert(pos as int == li);
                        assert(n0 * ci < li);
                        assert(li <= n1 * ci);
                        assert(n1 == k) by (nonlinear_arith)
                            requires
                                ci > 0,
                                n1 == n0 + 1,
                                n0 * ci < li,
                                li <= n1 * ci,
                                (k - 1) * ci < li,
                                li <= k * ci,
                        ;
                    }
                }
            }
            proof {
                if (n as int) < k {
                    let ci = c as int;
                    let li = source@.len() as int;
                    lemma_chunk_count_bounds(li, ci);
                    assert(false) by (nonlinear_arith)
                        requires
                            ci > 0,
                            (n as int) < k,
                            pos as int == n as int * ci,
                            pos as int == li,
                            (k - 1) * ci < li,
                    ;
                }
                assert(docs.take(n as int) =~= docs);
            }
        } else {
            proof {
                assert(docs.len() == 0);
                assert(docs.take(0) =~= docs);
            }
        }
        proof {
            assert(self@ =~~= upload_spec(
                pre,
                filename@,
                source@,
                upload_options_view(options),
                upload_date,
            ));
            lemma_upload_preserves_wf(pre, self@, id, docs);
        }
        id
    }

    /// Uploads `source` as chunks under `filename`, stamping the file
    /// document with the current wall-clock time, and returns the
    /// store-generated file id. The effect on the store is
    /// [`upload_spec`] at the moment of finalization.
    pub fn upload_from_stream(
        &mut self,
        filename: &str,
        source: &[u8],
        options: Option<GridFSUploadOptions>,
    ) -> (id: u64)
        requires
            old(self)@.store.wf(),
            old(self)@.store.next_id < u64::MAX,
            chunk_count_fits(
                old(self)@.options,
                upload_options_view(options),
                source@.len() as int,
            ),
        ensures
            exists|d: i64|
                final(self)@ == #[trigger] upload_spec(
                    old(self)@,
                    filename@,
                    source@,
                    upload_options_view(options),
                    d,
                ),
            id == old(self)@.store.next_id,
            final(self)@.store.wf(),
    {
        let upload_date = now_millis();
        self.upload_inner::<NoProgress>(filename, source, options, None, upload_date)
    }

    /// Like [`GridFSBucket::upload_from_stream`], but with the finalize
    /// timestamp supplied by the caller, so the whole effect is pinned
    /// exactly.
    pub fn upload_from_stream_at(
        &mut self,
        filename: &str,
        source: &[u8],
        options: Option<GridFSUploadOptions>,
        upload_date: i64,
    ) -> (id: u64)
        requires
            old(self)@.store.wf(),
            old(self)@.store.next_id < u64::MAX,
            chunk_count_fits(
                old(self)@.options,
                upload_options_view(options),
                source@.len() as int,
            ),
        ensures
            final(self)@ == upload_spec(
                old(self)@,
                filename@,
                source@,
                upload_options_view(options),
                upload_date,
            ),
            id == old(self)@.store.next_id,
            final(self)@.store.wf(),
    {
        self.upload_inner::<NoProgress>(filename, source, options, None, upload_date)
    }

    /// Like [`GridFSBucket::upload_from_stream`], invoking `progress` with
    /// the cumulative byte count after each chunk persists. The callback
    /// never affects what is stored.
    pub fn upload_from_stream_with_progress<P: ProgressUpdate>(
        &mut self,
        filename: &str,
        source: &[u8],
        options: Option<GridFSUploadOptions>,
        progress: &P,
    ) -> (id: u64)
        requires
            old(self)@.store.wf(),
            old(self)@.store.next_id < u64::MAX,
            chunk_count_fits(
                old(self)@.options,
                upload_options_view(options),
                source@.len() as int,
            ),
        ensures
            exists|d: i64|
                final(self)@ == #[trigger] upload_spec(
                    old(self)@,
                    filename@,
                    source@,
                    upload_options_view(options),
                    d,
                ),
            id == old(self)@.store.next_id,
            final(self)@.store.wf(),
    {
        let upload_date = now_millis();
        self.upload_inner(filename, source, options, Some(progress), upload_date)
    }
}

/// An upload on a well-formed store leaves a well-formed store: the fresh
/// id collides with nothing, and the new chunks carry increasing sequence
/// numbers.
proof fn lemma_upload_preserves_wf(pre: BucketView, post: BucketView, id: u64, docs: Seq<ChunkDocView>)
    requires
        pre.store.wf(),
        id == pre.store.next_id,
        id < u64::MAX,
        post.store.next_id == id + 1,
        post.store.files.len() == pre.store.files.len() + 1,
        forall|i: int|
            0 <= i < pre.store.files.len() ==> post.store.files[i] == pre.store.files[i],
        post.store.files.last().id == id,
        post.store.chunks == pre.store.chunks + docs,
        forall|i: int| 0 <= i < docs.len() ==> (#[trigger] docs[i]).files_id == id,
        forall|i: int, j: int| 0 <= i < j < docs.len() ==> docs[i].n < docs[j].n,
    ensures
        post.store.wf(),
{
    let pf = pre.store.files;
    let of = post.store.files;
    assert forall|i: int, j: int| 0 <= i < j < of.len() implies (#[trigger] of[i]).id != (
    #[trigger] of[j]).id by {
        if j < of.len() - 1 {
            assert(of[i] == pf[i] && of[j] == pf[j]);
        } else {
            assert(of[i] == pf[i]);
            assert(pf[i].id < id);
        }
    }
    assert forall|i: int| 0 <= i < of.len() implies (#[trigger] of[i]).id < post.store.next_id by {
        if i < of.len() - 1 {
            assert(of[i] == pf[i]);
        }
    }
    let pc = pre.store.chunks;
    let oc = post.store.chunks;
    assert forall|i: int| 0 <= i < oc.len() implies (#[trigger] oc[i]).files_id
        < post.store.next_id by {
        if i < pc.len() {
            assert(oc[i] == pc[i]);
        } else {
            assert(oc[i] == docs[i - pc.len()]);
        }
    }
    assert forall|i: int, j: int|
        0 <= i < j < oc.len() && (#[trigger] oc[i]).files_id == (#[trigger] oc[j]).files_id
        implies oc[i].n < oc[j].n by {
        if j < pc.len() {
            assert(oc[i] == pc[i] && oc[j] == pc[j]);
        } else if i >= pc.len() {
            assert(oc[i] == docs[i - pc.len()] && oc[j] == docs[j - pc.len()]);
        } else {
            assert(oc[i] == pc[i] && oc[j] == docs[j - pc.len()]);
            assert(pc[i].files_id < id);
        }
    }
}

} // verus!
