//! The chunk reader: resolving a file id to an ordered sequence of chunk
//! payloads.
//!
//! Opening a download first looks up the file document; a missing document
//! fails immediately with file-not-found and no chunk query is made.
//! Otherwise the file's chunks — stored in increasing sequence order — are
//! exposed one payload at a time through a forward-only, single-pass
//! [`DownloadStream`].

use crate::bucket::GridFSBucket;
use crate::store::chunk_data;
use crate::store::chunks_of_file;
use crate::store::file_index;
use crate::store::has_file;
use crate::store::lemma_chunks_of_file_push;
use crate::store::lemma_file_index_unique;
use crate::store::ChunkDoc;
use crate::store::ChunkDocView;
use crate::GridFSError;
use vstd::prelude::*;

verus! {

/// A forward-only, single-pass sequence of chunk payloads, one element per
/// stored chunk document of the opened file, in sequence order. The view is
/// the sequence of payloads not yet produced.
pub struct DownloadStream {
    buffers: Vec<Vec<u8>>,
    pos: usize,
}

impl View for DownloadStream {
    type V = Seq<Seq<u8>>;

    closed spec fn view(&self) -> Seq<Seq<u8>> {
        let all = self.buffers@.map_values(|v: Vec<u8>| v@);
        if self.pos <= all.len() {
            all.skip(self.pos as int)
        } else {
            Seq::empty()
        }
    }
}

impl DownloadStream {
    /// Produces the next chunk payload, or `None` once the stream is
    /// exhausted. Each payload's length is exactly the stored chunk's.
    pub fn next(&mut self) -> (r: Option<Vec<u8>>)
        ensures
            match r {
                Some(b) => old(self)@.len() > 0 && b@ == old(self)@[0] && final(self)@ == old(
                    self,
                )@.drop_first(),
                None => old(self)@.len() == 0 && final(self)@ == old(self)@,
            },
    {
        if self.pos < self.buffers.len() {
            let b = self.buffers[self.pos].clone();
            proof {
                assert(b@ =~= self.buffers@[self.pos as int]@);
            }
            self.pos = self.pos + 1;
            proof {
                assert(final(self)@ =~~= old(self)@.drop_first());
            }
            Some(b)
        } else {
            None
        }
    }
}

/// Collects the payloads of the chunks referencing `id`, in stored order.
fn collect_chunks(chunks: &Vec<ChunkDoc>, id: u64) -> (r: Vec<Vec<u8>>)
    ensures
        r.deep_view() == chunk_data(chunks_of_file(chunks@.map_values(|c: ChunkDoc| c@), id)),
{
    let ghost cv = chunks@.map_values(|c: ChunkDoc| c@);
    let mut r: Vec<Vec<u8>> = Vec::new();
    proof {
        assert(cv.take(0) =~= Seq::<ChunkDocView>::empty());
        assert(r.deep_view() =~~= chunk_data(chunks_of_file(cv.take(0), id)));
    }
    let mut i: usize = 0;
    while i < chunks.len()
        invariant
            cv == chunks@.map_values(|c: ChunkDoc| c@),
            i <= cv.len(),
            r.deep_view() == chunk_data(chunks_of_file(cv.take(i as int), id)),
        decreases cv.len() - i,
    {
        let ghost pre = r.deep_view();
        if chunks[i].files_id == id {
            let data = chunks[i].data.clone();
            proof {
                assert(data@ =~= chunks@[i as int].data@);
            }
            r.push(data);
            proof {
                assert(r.deep_view() =~~= pre.push(data@));
            }
        }
        proof {
            lemma_chunks_of_file_push(cv.take(i as int), cv[i as int], id);
            assert(cv.take(i as int + 1) =~= cv.take(i as int).push(cv[i as int]));
            if cv[i as int].files_id == id {
                assert(chunk_data(chunks_of_file(cv.take(i as int + 1), id)) =~~= pre.push(
                    cv[i as int].data,
                ));
            } else {
                assert(chunk_data(chunks_of_file(cv.take(i as int + 1), id)) =~~= pre);
            }
        }
        i = i + 1;
    }
    proof {
        assert(cv.take(cv.len() as int) =~= cv);
    }
    r
}

impl GridFSBucket {
    /// Opens a stream over the stored file `id`, returning the ordered
    /// chunk payloads together with the file document's filename. Fails
    /// with file-not-found — before any chunk is consulted — exactly when
    /// no file document carries `id`.
    pub fn open_download_stream_with_filename(&self, id: u64) -> (r: Result<
        (DownloadStream, String),
        GridFSError,
    >)
        requires
            self@.store.wf(),
        ensures
            match r {
                Ok((stream, filename)) => {
                    &&& has_file(self@.store.files, id)
                    &&& filename@ == self@.store.files[file_index(self@.store.files, id)].filename
                    &&& stream@ == chunk_data(chunks_of_file(self@.store.chunks, id))
                },
                Err(e) => e == GridFSError::FileNotFound() && !has_file(self@.store.files, id),
            },
    {
        let files_len = self.store.files.len();
        let mut i: usize = 0;
        while i < files_len
            invariant
                self@.store.wf(),
                files_len == self@.store.files.len(),
                i <= files_len,
                forall|j: int| 0 <= j < i ==> (#[trigger] self@.store.files[j]).id != id,
            decreases files_len - i,
        {
            if self.store.files[i].id == id {
                let filename = self.store.files[i].filename.clone();
                proof {
                    lemma_file_index_unique(self@.store.files, id, i as int);
                }
                let buffers = collect_chunks(&self.store.chunks, id);
                let ghost payloads = buffers.deep_view();
                let stream = DownloadStream { buffers, pos: 0 };
                proof {
                    assert(stream@ =~~= payloads);
                }
                return Ok((stream, filename));
            }
            i = i + 1;
        }
        proof {
            if has_file(self@.store.files, id) {
                let w = choose|w: int|
                    0 <= w < self@.store.files.len() && (#[trigger] self@.store.files[w]).id == id;
                assert(self@.store.files[w].id != id);
            }
        }
        Err(GridFSError::FileNotFound())
    }

    /// Opens a stream over the stored file `id`; see
    /// [`GridFSBucket::open_download_stream_with_filename`].
    pub fn open_download_stream(&self, id: u64) -> (r: Result<DownloadStream, GridFSError>)
        requires
            self@.store.wf(),
        ensures
            match r {
                Ok(stream) => has_file(self@.store.files, id) && stream@ == chunk_data(
                    chunks_of_file(self@.store.chunks, id),
                ),
                Err(e) => e == GridFSError::FileNotFound() && !has_file(self@.store.files, id),
            },
    {
        match self.open_download_stream_with_filename(id) {
            Ok((stream, _)) => Ok(stream),
            Err(e) => Err(e),
        }
    }
}

} // verus!
