//! Deleting a stored file: its file document and every chunk referencing it.

use crate::bucket::BucketView;
use crate::bucket::GridFSBucket;
use crate::store::chunks_without;
use crate::store::file_index;
use crate::store::has_file;
use crate::store::lemma_chunks_without_push;
use crate::store::lemma_file_index_unique;
use crate::store::lemma_remove_file_wf;
use crate::store::ChunkDoc;
use crate::store::ChunkDocView;
use crate::store::StoreView;
use crate::GridFSError;
use vstd::prelude::*;

verus! {

/// Rebuilds a chunk list without the chunks referencing `id`.
fn retain_other_chunks(chunks: &Vec<ChunkDoc>, id: u64) -> (r: Vec<ChunkDoc>)
    ensures
        r@.map_values(|c: ChunkDoc| c@) == chunks_without(
            chunks@.map_values(|c: ChunkDoc| c@),
            id,
        ),
{
    let ghost cv = chunks@.map_values(|c: ChunkDoc| c@);
    let mut r: Vec<ChunkDoc> = Vec::new();
    proof {
        assert(cv.take(0) =~= Seq::<ChunkDocView>::empty());
        assert(r@.map_values(|c: ChunkDoc| c@) =~~= chunks_without(cv.take(0), id));
    }
    let mut i: usize = 0;
    while i < chunks.len()
        invariant
            cv == chunks@.map_values(|c: ChunkDoc| c@),
            i <= cv.len(),
            r@.map_values(|c: ChunkDoc| c@) == chunks_without(cv.take(i as int), id),
        decreases cv.len() - i,
    {
        let ghost pre = r@.map_values(|c: ChunkDoc| c@);
        if chunks[i].files_id != id {
            let kept = chunks[i].clone();
            r.push(kept);
            proof {
                assert(r@.map_values(|c: ChunkDoc| c@) =~~= pre.push(cv[i as int]));
            }
        }
        proof {
            lemma_chunks_without_push(cv.take(i as int), cv[i as int], id);
            assert(cv.take(i as int + 1) =~= cv.take(i as int).push(cv[i as int]));
            if cv[i as int].files_id == id {
                assert(r@.map_values(|c: ChunkDoc| c@) =~~= chunks_without(
                    cv.take(i as int + 1),
                    id,
                ));
            } else {
                assert(r@.map_values(|c: ChunkDoc| c@) =~~= chunks_without(
                    cv.take(i as int + 1),
                    id,
                ));
            }
        }
        i = i + 1;
    }
    proof {
        assert(cv.take(cv.len() as int) =~= cv);
    }
    r
}

impl GridFSBucket {
    /// Deletes the file document carrying `id`, then every chunk document
    /// referencing it — possibly none, as for an empty file. When no file
    /// document matches, fails with file-not-found and performs no further
    /// action: the collections are left exactly as they were.
    pub fn delete(&mut self, id: u64) -> (r: Result<(), GridFSError>)
        requires
            old(self)@.store.wf(),
        ensures
            final(self)@.store.wf(),
            match r {
                Ok(()) => {
                    &&& has_file(old(self)@.store.files, id)
                    &&& final(self)@ == (BucketView {
                        store: StoreView {
                            files: old(self)@.store.files.remove(
                                file_index(old(self)@.store.files, id),
                            ),
                            chunks: chunks_without(old(self)@.store.chunks, id),
                            ..old(self)@.store
                        },
                        ..old(self)@
                    })
                },
                Err(e) => {
                    &&& e == GridFSError::FileNotFound()
                    &&& !has_file(old(self)@.store.files, id)
                    &&& final(self)@ == old(self)@
                },
            },
    {
        let ghost pre = self@;
        let files_len = self.store.files.len();
        let mut i: usize = 0;
        while i < files_len
            invariant
                self@ == pre,
                pre == old(self)@,
                pre.store.wf(),
                files_len == pre.store.files.len(),
                i <= files_len,
                forall|j: int| 0 <= j < i ==> (#[trigger] pre.store.files[j]).id != id,
            decreases files_len - i,
        {
            if self.store.files[i].id == id {
                proof {
                    lemma_file_index_unique(pre.store.files, id, i as int);
                }
                self.store.files.remove(i);
                let kept = retain_other_chunks(&self.store.chunks, id);
                self.store.chunks = kept;
                proof {
                    assert(self@.store.files =~~= pre.store.files.remove(i as int));
                    assert(self@ =~~= (BucketView {
                        store: StoreView {
                            files: pre.store.files.remove(file_index(pre.store.files, id)),
                            chunks: chunks_without(pre.store.chunks, id),
                            ..pre.store
                        },
                        ..pre
                    }));
                    lemma_remove_file_wf(pre.store, i as int);
                }
                return Ok(());
            }
            i = i + 1;
        }
        proof {
            if has_file(pre.store.files, id) {
                let w = choose|w: int|
                    0 <= w < pre.store.files.len() && (#[trigger] pre.store.files[w]).id == id;
                assert(pre.store.files[w].id != id);
            }
        }
        Err(GridFSError::FileNotFound())
    }
}

} // verus!
