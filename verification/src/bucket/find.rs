//! Finding file documents: filter, sort, skip and limit on the files
//! collection.
//!
//! The filter is applied to the stored documents in order; an optional sort
//! reorders them by one field with ties broken by file id, so the order is
//! total and the result is pinned exactly; skip and limit then cut a window
//! out of the sorted sequence, as the store would.

use crate::bucket::GridFSBucket;
use crate::options::FindSort;
use crate::options::GridFSFindOptions;
use crate::options::SortField;
use crate::store::FileDoc;
use crate::store::FileDocView;
use vstd::prelude::*;

verus! {

/// A filter over file documents, as the find operation models it: match
/// everything, match by exact filename, or match by file id.
pub enum FindFilter {
    All,
    ByFilename(String),
    ById(u64),
}

/// Mathematical model of [`FindFilter`].
pub ghost enum FindFilterView {
    All,
    ByFilename(Seq<char>),
    ById(u64),
}

impl View for FindFilter {
    type V = FindFilterView;

    open spec fn view(&self) -> FindFilterView {
        match self {
            FindFilter::All => FindFilterView::All,
            FindFilter::ByFilename(name) => FindFilterView::ByFilename(name@),
            FindFilter::ById(id) => FindFilterView::ById(*id),
        }
    }
}

/// Whether a file document matches a filter.
pub open spec fn matches_filter(d: FileDocView, f: FindFilterView) -> bool {
    match f {
        FindFilterView::All => true,
        FindFilterView::ByFilename(name) => d.filename == name,
        FindFilterView::ById(id) => d.id == id,
    }
}

/// The documents matching a filter, in stored order.
pub open spec fn files_matching(files: Seq<FileDocView>, f: FindFilterView) -> Seq<FileDocView>
    decreases files.len(),
{
    if files.len() == 0 {
        Seq::empty()
    } else {
        let rest = files_matching(files.drop_last(), f);
        if matches_filter(files.last(), f) {
            rest.push(files.last())
        } else {
            rest
        }
    }
}

/// Unfolds [`files_matching`] over a push.
pub proof fn lemma_files_matching_push(files: Seq<FileDocView>, d: FileDocView, f: FindFilterView)
    ensures
        files_matching(files.push(d), f) == if matches_filter(d, f) {
            files_matching(files, f).push(d)
        } else {
            files_matching(files, f)
        },
{
    assert(files.push(d).drop_last() =~= files);
}

/// Every document selected by [`files_matching`] matches the filter, and
/// every stored document that matches is selected.
pub proof fn lemma_files_matching_complete(files: Seq<FileDocView>, f: FindFilterView)
    ensures
        forall|i: int|
            0 <= i < files_matching(files, f).len() ==> matches_filter(
                #[trigger] files_matching(files, f)[i],
                f,
            ) && files.contains(files_matching(files, f)[i]),
        forall|i: int|
            0 <= i < files.len() && matches_filter(#[trigger] files[i], f) ==> files_matching(
                files,
                f,
            ).contains(files[i]),
    decreases files.len(),
{
    if files.len() > 0 {
        let rest = files.drop_last();
        lemma_files_matching_complete(rest, f);
        let prev = files_matching(rest, f);
        let cur = files_matching(files, f);
        assert forall|i: int| 0 <= i < cur.len() implies matches_filter(#[trigger] cur[i], f)
            && files.contains(cur[i]) by {
            if matches_filter(files.last(), f) && i == cur.len() - 1 {
                assert(cur[i] == files.last());
                assert(files[files.len() - 1] == files.last());
            } else {
                assert(cur[i] == prev[i]);
                assert(rest.contains(prev[i]));
                let w = choose|w: int| 0 <= w < rest.len() && rest[w] == prev[i];
                assert(files[w] == prev[i]);
            }
        }
        assert forall|i: int|
            0 <= i < files.len() && matches_filter(#[trigger] files[i], f) implies cur.contains(
            files[i],
        ) by {
            if i < files.len() - 1 {
                assert(rest[i] == files[i]);
                assert(prev.contains(files[i]));
                let w = choose|w: int| 0 <= w < prev.len() && prev[w] == files[i];
                assert(cur[w] == files[i]);
            } else {
                assert(cur.last() == files[i]);
            }
        }
    }
}

/// The sort key of a document for one field: a presence rank, so that
/// documents without the field order first, then the field's value.
pub open spec fn field_key(d: FileDocView, f: SortField) -> (int, int) {
    match f {
        SortField::Id => (1int, d.id as int),
        SortField::Length => match d.length {
            Some(v) => (1int, v as int),
            None => (0int, 0int),
        },
        SortField::UploadDate => match d.upload_date {
            Some(v) => (1int, v as int),
            None => (0int, 0int),
        },
    }
}

/// Strict lexicographic order on sort keys.
pub open spec fn key_lt(a: (int, int), b: (int, int)) -> bool {
    a.0 < b.0 || (a.0 == b.0 && a.1 < b.1)
}

/// The total order a sort imposes on documents: by the field's key in the
/// requested direction, ties broken by ascending file id.
pub open spec fn doc_le_spec(a: FileDocView, b: FileDocView, sort: FindSort) -> bool {
    let ka = field_key(a, sort.field);
    let kb = field_key(b, sort.field);
    if ka == kb {
        a.id <= b.id
    } else if sort.ascending {
        key_lt(ka, kb)
    } else {
        key_lt(kb, ka)
    }
}

/// [`doc_le_spec`] is total.
pub proof fn lemma_doc_le_total(a: FileDocView, b: FileDocView, sort: FindSort)
    ensures
        doc_le_spec(a, b, sort) || doc_le_spec(b, a, sort),
{
}

/// [`doc_le_spec`] is transitive.
pub proof fn lemma_doc_le_trans(a: FileDocView, b: FileDocView, c: FileDocView, sort: FindSort)
    requires
        doc_le_spec(a, b, sort),
        doc_le_spec(b, c, sort),
    ensures
        doc_le_spec(a, c, sort),
{
}

/// Decides [`doc_le_spec`].
fn doc_le(a: &FileDoc, b: &FileDoc, sort: FindSort) -> (r: bool)
    ensures
        r == doc_le_spec(a@, b@, sort),
{
    let (ra, va): (u8, i128) = match sort.field {
        SortField::Id => (1, a.id as i128),
        SortField::Length => match a.length {
            Some(v) => (1, v as i128),
            None => (0, 0),
        },
        SortField::UploadDate => match a.upload_date {
            Some(v) => (1, v as i128),
            None => (0, 0),
        },
    };
    let (rb, vb): (u8, i128) = match sort.field {
        SortField::Id => (1, b.id as i128),
        SortField::Length => match b.length {
            Some(v) => (1, v as i128),
            None => (0, 0),
        },
        SortField::UploadDate => match b.upload_date {
            Some(v) => (1, v as i128),
            None => (0, 0),
        },
    };
    if ra == rb && va == vb {
        a.id <= b.id
    } else if sort.ascending {
        ra < rb || (ra == rb && va < vb)
    } else {
        rb < ra || (rb == ra && vb < va)
    }
}

/// Where a document is inserted into a sorted run: before the first element
/// it precedes or equals.
pub open spec fn insert_pos(s: Seq<FileDocView>, d: FileDocView, sort: FindSort) -> int
    decreases s.len(),
{
    if s.len() == 0 {
        0
    } else if doc_le_spec(d, s[0], sort) {
        0
    } else {
        1 + insert_pos(s.drop_first(), d, sort)
    }
}

/// The insertion position is in range, everything before it precedes the
/// document strictly, and the element at it (when any) does not.
pub proof fn lemma_insert_pos_props(s: Seq<FileDocView>, d: FileDocView, sort: FindSort)
    ensures
        0 <= insert_pos(s, d, sort) <= s.len(),
        forall|j: int| 0 <= j < insert_pos(s, d, sort) ==> !doc_le_spec(d, #[trigger] s[j], sort),
        insert_pos(s, d, sort) < s.len() ==> doc_le_spec(d, s[insert_pos(s, d, sort)], sort),
    decreases s.len(),
{
    if s.len() > 0 && !doc_le_spec(d, s[0], sort) {
        let rest = s.drop_first();
        lemma_insert_pos_props(rest, d, sort);
        let p = insert_pos(s, d, sort);
        assert forall|j: int| 0 <= j < p implies !doc_le_spec(d, #[trigger] s[j], sort) by {
            if j > 0 {
                assert(rest[j - 1] == s[j]);
            }
        }
        if p < s.len() {
            assert(rest[p - 1] == s[p]);
        }
    }
}

/// A scan position that is first among the elements the document precedes
/// is the [`insert_pos`].
pub proof fn lemma_insert_pos_unique(s: Seq<FileDocView>, d: FileDocView, sort: FindSort, k: int)
    requires
        0 <= k <= s.len(),
        forall|j: int| 0 <= j < k ==> !doc_le_spec(d, #[trigger] s[j], sort),
        k < s.len() ==> doc_le_spec(d, s[k], sort),
    ensures
        insert_pos(s, d, sort) == k,
    decreases s.len(),
{
    if s.len() > 0 {
        if k == 0 {
        } else {
            let rest = s.drop_first();
            assert(s[0] == s[0]);
            assert forall|j: int| 0 <= j < k - 1 implies !doc_le_spec(
                d,
                #[trigger] rest[j],
                sort,
            ) by {
                assert(rest[j] == s[j + 1]);
            }
            if k - 1 < rest.len() {
                assert(rest[k - 1] == s[k]);
            }
            lemma_insert_pos_unique(rest, d, sort, k - 1);
        }
    }
}

/// One document inserted into a sorted run at its position.
pub open spec fn insert_sorted(s: Seq<FileDocView>, d: FileDocView, sort: FindSort) -> Seq<
    FileDocView,
> {
    let p = insert_pos(s, d, sort);
    s.take(p) + seq![d] + s.skip(p)
}

/// The documents in sorted order: an insertion sort in the specification.
pub open spec fn sort_docs_spec(s: Seq<FileDocView>, sort: FindSort) -> Seq<FileDocView>
    decreases s.len(),
{
    if s.len() == 0 {
        Seq::empty()
    } else {
        insert_sorted(sort_docs_spec(s.drop_last(), sort), s.last(), sort)
    }
}

/// Whether a run is sorted under [`doc_le_spec`].
pub open spec fn sorted_by(s: Seq<FileDocView>, sort: FindSort) -> bool {
    forall|i: int, j: int| 0 <= i < j < s.len() ==> doc_le_spec(#[trigger] s[i], #[trigger] s[j], sort)
}

/// Inserting into a sorted run keeps it sorted.
pub proof fn lemma_insert_sorted_sorted(s: Seq<FileDocView>, d: FileDocView, sort: FindSort)
    requires
        sorted_by(s, sort),
    ensures
        sorted_by(insert_sorted(s, d, sort), sort),
{
    lemma_insert_pos_props(s, d, sort);
    let p = insert_pos(s, d, sort);
    let r = insert_sorted(s, d, sort);
    assert forall|i: int, j: int| 0 <= i < j < r.len() implies doc_le_spec(
        #[trigger] r[i],
        #[trigger] r[j],
        sort,
    ) by {
        let oi = if i < p {
            i
        } else {
            i - 1
        };
        let oj = if j < p {
            j
        } else {
            j - 1
        };
        if i == p {
            // r[i] is d itself
            assert(r[j] == s[oj]);
            if oj == p {
                assert(doc_le_spec(d, s[p], sort));
            } else {
                assert(doc_le_spec(d, s[p], sort));
                assert(doc_le_spec(s[p], s[oj], sort));
                lemma_doc_le_trans(d, s[p], s[oj], sort);
            }
        } else if j == p {
            // r[j] is d itself
            assert(r[i] == s[oi]);
            assert(!doc_le_spec(d, s[oi], sort));
            lemma_doc_le_total(d, s[oi], sort);
        } else {
            assert(r[i] == s[oi]);
            assert(r[j] == s[oj]);
            if i < p && j > p {
                assert(oi < oj || oi == oj);
                if oi == oj {
                    lemma_doc_le_total(s[oi], s[oj], sort);
                }
            }
        }
    }
}

/// Inserting adds exactly the document to the multiset of a run.
pub proof fn lemma_insert_sorted_multiset(s: Seq<FileDocView>, d: FileDocView, sort: FindSort)
    ensures
        insert_sorted(s, d, sort).to_multiset() == s.to_multiset().insert(d),
{
    broadcast use vstd::multiset::group_multiset_axioms;

    lemma_insert_pos_props(s, d, sort);
    let p = insert_pos(s, d, sort);
    let a = s.take(p);
    let b = s.skip(p);
    a.to_multiset_ensures();
    vstd::seq_lib::lemma_multiset_commutative(a.push(d), b);
    vstd::seq_lib::lemma_multiset_commutative(a, b);
    assert(a + b =~= s);
    assert(a + seq![d] + b =~= a.push(d) + b);
    assert((a.push(d) + b).to_multiset() == a.push(d).to_multiset().add(b.to_multiset()));
    assert(a.push(d).to_multiset() =~= a.to_multiset().insert(d));
    assert(s.to_multiset() == a.to_multiset().add(b.to_multiset()));
    assert(a.to_multiset().insert(d).add(b.to_multiset()) =~= a.to_multiset().add(
        b.to_multiset(),
    ).insert(d));
}

/// The sorted run is sorted and holds exactly the input documents.
pub proof fn lemma_sort_docs_spec(s: Seq<FileDocView>, sort: FindSort)
    ensures
        sorted_by(sort_docs_spec(s, sort), sort),
        sort_docs_spec(s, sort).to_multiset() == s.to_multiset(),
        sort_docs_spec(s, sort).len() == s.len(),
    decreases s.len(),
{
    if s.len() == 0 {
        assert(s =~= Seq::<FileDocView>::empty());
    } else {
        let rest = s.drop_last();
        lemma_sort_docs_spec(rest, sort);
        lemma_insert_sorted_sorted(sort_docs_spec(rest, sort), s.last(), sort);
        lemma_insert_sorted_multiset(sort_docs_spec(rest, sort), s.last(), sort);
        rest.to_multiset_ensures();
        assert(rest.push(s.last()) =~= s);
        assert(rest.push(s.last()).to_multiset() =~= rest.to_multiset().insert(s.last()));
        lemma_insert_pos_props(sort_docs_spec(rest, sort), s.last(), sort);
    }
}

/// How many documents a limit allows out of `remaining`: no limit and a
/// zero limit allow all, a negative limit counts as its absolute value.
pub open spec fn effective_limit(limit: Option<i64>, remaining: int) -> int {
    match limit {
        None => remaining,
        Some(l) => {
            if l == 0 {
                remaining
            } else {
                let a = if l > 0 {
                    l as int
                } else {
                    -(l as int)
                };
                if a < remaining {
                    a
                } else {
                    remaining
                }
            }
        },
    }
}

/// How many documents a skip passes over: a negative skip counts as zero,
/// and skipping past the end leaves nothing.
pub open spec fn effective_skip(skip: i64, len: int) -> int {
    if skip <= 0 {
        0
    } else if skip as int > len {
        len
    } else {
        skip as int
    }
}

/// What a find query returns: the matching documents, sorted when a sort is
/// given, with skip and limit applied to the sorted run.
pub open spec fn find_spec(
    files: Seq<FileDocView>,
    filter: FindFilterView,
    options: GridFSFindOptions,
) -> Seq<FileDocView> {
    let matched = files_matching(files, filter);
    let sorted = match options.sort {
        Some(s) => sort_docs_spec(matched, s),
        None => matched,
    };
    let after_skip = sorted.skip(effective_skip(options.skip, sorted.len() as int));
    after_skip.take(effective_limit(options.limit, after_skip.len() as int))
}

impl GridFSBucket {
    /// Returns the file documents matching `filter`, honouring the sort,
    /// skip and limit of `options`. The batch size, disk-use, max-time and
    /// cursor-timeout knobs never change the returned documents; the
    /// unverified shell forwards them to the store.
    pub fn find(&self, filter: FindFilter, options: GridFSFindOptions) -> (r: Vec<FileDoc>)
        ensures
            r@.map_values(|d: FileDoc| d@) == find_spec(self@.store.files, filter@, options),
    {
        let matched = self.collect_matching(&filter);
        let sorted = match options.sort {
            Some(s) => sort_docs(matched, s),
            None => matched,
        };
        let ghost sorted_view = sorted@.map_values(|d: FileDoc| d@);
        let len = sorted.len();
        let start: usize = if options.skip <= 0 {
            0
        } else {
            let sk = options.skip as u64;
            if sk > len as u64 {
                len
            } else {
                sk as usize
            }
        };
        let remaining = len - start;
        let m: usize = match options.limit {
            None => remaining,
            Some(l) => {
                if l == 0 {
                    remaining
                } else {
                    let a: u64 = if l > 0 {
                        l as u64
                    } else {
                        (-(l + 1)) as u64 + 1
                    };
                    if a < remaining as u64 {
                        a as usize
                    } else {
                        remaining
                    }
                }
            },
        };
        proof {
            assert(start as int == effective_skip(options.skip, sorted_view.len() as int));
            assert(m as int == effective_limit(options.limit, sorted_view.len() as int - start as int));
        }
        let mut r: Vec<FileDoc> = Vec::new();
        let mut i: usize = 0;
        while i < m
            invariant
                start + m <= sorted@.len(),
                sorted@.len() <= usize::MAX,
                sorted_view == sorted@.map_values(|d: FileDoc| d@),
                i <= m,
                r@.map_values(|d: FileDoc| d@) == sorted_view.skip(start as int).take(
                    m as int,
                ).take(i as int),
            decreases m - i,
        {
            let ghost pre = r@.map_values(|d: FileDoc| d@);
            let d = sorted[start + i].clone();
            r.push(d);
            proof {
                let window = sorted_view.skip(start as int).take(m as int);
                assert(r@.map_values(|d: FileDoc| d@) =~~= pre.push(sorted_view[start as int
                    + i as int]));
                assert(window.take(i as int + 1) =~= window.take(i as int).push(window[i as int]));
                assert(window[i as int] == sorted_view[start as int + i as int]);
            }
            i = i + 1;
        }
        proof {
            let window = sorted_view.skip(start as int).take(m as int);
            assert(window.take(m as int) =~= window);
            assert(r@.map_values(|d: FileDoc| d@) =~~= find_spec(
                self@.store.files,
                filter@,
                options,
            ));
        }
        r
    }

    /// Collects clones of the stored documents matching `filter`, in stored
    /// order.
    fn collect_matching(&self, filter: &FindFilter) -> (r: Vec<FileDoc>)
        ensures
            r@.map_values(|d: FileDoc| d@) == files_matching(self@.store.files, filter@),
    {
        let ghost fv = self@.store.files;
        let mut r: Vec<FileDoc> = Vec::new();
        proof {
            assert(fv.take(0) =~= Seq::<FileDocView>::empty());
            assert(r@.map_values(|d: FileDoc| d@) =~~= files_matching(fv.take(0), filter@));
        }
        let mut i: usize = 0;
        while i < self.store.files.len()
            invariant
                fv == self@.store.files,
                i <= fv.len(),
                r@.map_values(|d: FileDoc| d@) == files_matching(fv.take(i as int), filter@),
        decreases fv.len() - i,
        {
            let ghost pre = r@.map_values(|d: FileDoc| d@);
            let doc = &self.store.files[i];
            let is_match = match filter {
                FindFilter::All => true,
                FindFilter::ByFilename(name) => doc.filename == *name,
                FindFilter::ById(fid) => doc.id == *fid,
            };
            if is_match {
                let kept = doc.clone();
                r.push(kept);
                proof {
                    assert(r@.map_values(|d: FileDoc| d@) =~~= pre.push(fv[i as int]));
                }
            }
            proof {
                lemma_files_matching_push(fv.take(i as int), fv[i as int], filter@);
                assert(fv.take(i as int + 1) =~= fv.take(i as int).push(fv[i as int]));
                assert(is_match == matches_filter(fv[i as int], filter@));
                assert(r@.map_values(|d: FileDoc| d@) =~~= files_matching(
                    fv.take(i as int + 1),
                    filter@,
                ));
            }
            i = i + 1;
        }
        proof {
            assert(fv.take(fv.len() as int) =~= fv);
        }
        r
    }
}

/// Sorts documents by insertion, matching [`sort_docs_spec`].
fn sort_docs(docs: Vec<FileDoc>, sort: FindSort) -> (r: Vec<FileDoc>)
    ensures
        r@.map_values(|d: FileDoc| d@) == sort_docs_spec(docs@.map_values(|d: FileDoc| d@), sort),
{
    let ghost dv = docs@.map_values(|d: FileDoc| d@);
    let mut r: Vec<FileDoc> = Vec::new();
    proof {
        assert(dv.take(0) =~= Seq::<FileDocView>::empty());
        assert(r@.map_values(|d: FileDoc| d@) =~~= sort_docs_spec(dv.take(0), sort));
    }
    let mut i: usize = 0;
    while i < docs.len()
        invariant
            dv == docs@.map_values(|d: FileDoc| d@),
            i <= dv.len(),
            r@.map_values(|d: FileDoc| d@) == sort_docs_spec(dv.take(i as int), sort),
        decreases dv.len() - i,
    {
        let ghost acc = r@.map_values(|d: FileDoc| d@);
        let d = docs[i].clone();
        let mut p: usize = 0;
        while p < r.len() && !doc_le(&d, &r[p], sort)
            invariant
                dv == docs@.map_values(|d2: FileDoc| d2@),
                i < dv.len(),
                d@ == dv[i as int],
                acc == r@.map_values(|d2: FileDoc| d2@),
                p <= acc.len(),
                forall|j: int| 0 <= j < p ==> !doc_le_spec(d@, #[trigger] acc[j], sort),
            decreases r@.len() - p,
        {
            p = p + 1;
        }
        proof {
            lemma_insert_pos_unique(acc, d@, sort, p as int);
        }
        r.insert(p, d);
        proof {
            assert(r@.map_values(|d2: FileDoc| d2@) =~~= insert_sorted(acc, dv[i as int], sort));
            assert(dv.take(i as int + 1) =~= dv.take(i as int).push(dv[i as int]));
            assert(dv.take(i as int + 1).drop_last() =~= dv.take(i as int));
            assert(r@.map_values(|d2: FileDoc| d2@) =~~= sort_docs_spec(
                dv.take(i as int + 1),
                sort,
            ));
        }
        i = i + 1;
    }
    proof {
        assert(dv.take(dv.len() as int) =~= dv);
    }
    r
}

} // verus!
