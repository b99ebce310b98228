//! Dropping a bucket: both collections removed outright.

use crate::bucket::BucketView;
use crate::bucket::GridFSBucket;
use crate::store::StoreView;
use vstd::prelude::*;

verus! {

impl GridFSBucket {
    /// Drops the files and chunks collections of this bucket: every
    /// document and index key is gone and neither collection exists any
    /// more. There is no existence check and no confirmation; dropping an
    /// already-empty bucket is a no-op with the same outcome. The id
    /// counter is retained, so ids are never reused.
    pub fn drop(&mut self)
        ensures
            final(self)@ == (BucketView {
                store: StoreView {
                    files: Seq::empty(),
                    chunks: Seq::empty(),
                    files_collection_exists: false,
                    chunks_collection_exists: false,
                    files_indexes: Seq::empty(),
                    chunks_indexes: Seq::empty(),
                    next_id: old(self)@.store.next_id,
                },
                ..old(self)@
            }),
            final(self)@.store.wf(),
    {
        self.store.files = Vec::new();
        self.store.chunks = Vec::new();
        self.store.files_collection_exists = false;
        self.store.chunks_collection_exists = false;
        self.store.files_indexes = Vec::new();
        self.store.chunks_indexes = Vec::new();
        proof {
            assert(self@ =~~= (BucketView {
                store: StoreView {
                    files: Seq::empty(),
                    chunks: Seq::empty(),
                    files_collection_exists: false,
                    chunks_collection_exists: false,
                    files_indexes: Seq::empty(),
                    chunks_indexes: Seq::empty(),
                    next_id: old(self)@.store.next_id,
                },
                ..old(self)@
            }));
        }
    }
}

} // verus!
