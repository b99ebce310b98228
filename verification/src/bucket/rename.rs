//! Renaming a stored file: an unconditional update of the filename field.

use crate::bucket::BucketView;
use crate::bucket::GridFSBucket;
use crate::store::file_index;
use crate::store::has_file;
use crate::store::lemma_file_index_unique;
use crate::store::FileDoc;
use crate::store::FileDocView;
use crate::store::StoreView;
use vstd::prelude::*;

verus! {

/// The outcome of an update: how many documents matched the filter, and how
/// many were actually changed.
#[derive(Clone, Copy, Debug, PartialEq, Eq, Structural)]
pub struct UpdateResult {
    pub matched_count: u64,
    pub modified_count: u64,
}

impl GridFSBucket {
    /// Sets the filename of the file document carrying `id`, leaving every
    /// other field as it was. A result matching zero documents is not an
    /// error: renaming an unknown id simply reports no match.
    pub fn rename(&mut self, id: u64, new_filename: &str) -> (r: UpdateResult)
        requires
            old(self)@.store.wf(),
        ensures
            final(self)@.store.wf(),
            has_file(old(self)@.store.files, id) ==> {
                let files = old(self)@.store.files;
                let idx = file_index(files, id);
                &&& r.matched_count == 1
                &&& r.modified_count == (if files[idx].filename == new_filename@ {
                    0u64
                } else {
                    1u64
                })
                &&& final(self)@ == (BucketView {
                    store: StoreView {
                        files: files.update(
                            idx,
                            FileDocView { filename: new_filename@, ..files[idx] },
                        ),
                        ..old(self)@.store
                    },
                    ..old(self)@
                })
            },
            !has_file(old(self)@.store.files, id) ==> {
                &&& r.matched_count == 0
                &&& r.modified_count == 0
                &&& final(self)@ == old(self)@
            },
    {
        let ghost pre = self@;
        let files_len = self.store.files.len();
        let mut i: usize = 0;
        while i < files_len
            invariant
                self@ == pre,
                pre == old(self)@,
                pre.store.wf(),
                files_len == pre.store.files.len(),
                i <= files_len,
                forall|j: int| 0 <= j < i ==> (#[trigger] pre.store.files[j]).id != id,
            decreases files_len - i,
        {
            if self.store.files[i].id == id {
                proof {
                    lemma_file_index_unique(pre.store.files, id, i as int);
                }
                let fresh_name = new_filename.to_owned();
                let unchanged = self.store.files[i].filename == fresh_name;
                let old_doc = self.store.files[i].clone();
                let new_doc = FileDoc { filename: fresh_name, ..old_doc };
                self.store.files.set(i, new_doc);
                proof {
                    let idx = i as int;
                    assert(self@.store.files =~~= pre.store.files.update(
                        idx,
                        FileDocView { filename: new_filename@, ..pre.store.files[idx] },
                    ));
                    assert(self@ =~~= (BucketView {
                        store: StoreView {
                            files: pre.store.files.update(
                                idx,
                                FileDocView { filename: new_filename@, ..pre.store.files[idx] },
                            ),
                            ..pre.store
                        },
                        ..pre
                    }));
                    let nf = self@.store.files;
                    assert forall|a: int, b: int| 0 <= a < b < nf.len() implies (
                    #[trigger] nf[a]).id != (#[trigger] nf[b]).id by {
                        assert(nf[a].id == pre.store.files[a].id);
                        assert(nf[b].id == pre.store.files[b].id);
                    }
                    assert forall|a: int| 0 <= a < nf.len() implies (#[trigger] nf[a]).id
                        < self@.store.next_id by {
                        assert(nf[a].id == pre.store.files[a].id);
                    }
                }
                return UpdateResult {
                    matched_count: 1,
                    modified_count: if unchanged {
                        0
                    } else {
                        1
                    },
                };
            }
            i = i + 1;
        }
        proof {
            if has_file(pre.store.files, id) {
                let w = choose|w: int|
                    0 <= w < pre.store.files.len() && (#[trigger] pre.store.files[w]).id == id;
                assert(pre.store.files[w].id != id);
            }
        }
        UpdateResult { matched_count: 0, modified_count: 0 }
    }
}

} // verus!
