//! The chunking engine: splitting a byte sequence into fixed-size pieces and
//! reassembling it.
//!
//! For a chunk size `c > 0`, a sequence of `l` bytes is split into
//! `ceil(l / c)` pieces: every piece but the last holds exactly `c` bytes,
//! the last holds the remainder (or `c` when `l` is a nonzero multiple of
//! `c`), and concatenating the pieces in order reproduces the input exactly.
//! A chunk size of zero — which the writer accepts unvalidated — yields no
//! pieces at all.

use vstd::arithmetic::div_mod::lemma_fundamental_div_mod;
use vstd::arithmetic::div_mod::lemma_fundamental_div_mod_converse;
use vstd::prelude::*;
use vstd::slice::slice_subrange;
use vstd::slice::slice_to_vec;

verus! {

/// The pieces of `bytes` under chunk size `c`, in order.
pub open spec fn chunks_of(bytes: Seq<u8>, c: int) -> Seq<Seq<u8>>
    decreases bytes.len(),
{
    if c <= 0 || bytes.len() == 0 {
        Seq::empty()
    } else if bytes.len() <= c {
        seq![bytes]
    } else {
        seq![bytes.take(c)] + chunks_of(bytes.skip(c), c)
    }
}

/// How many pieces `len` bytes yield under chunk size `c`.
pub open spec fn chunk_count(len: int, c: int) -> int
    decreases len,
{
    if c <= 0 || len <= 0 {
        0
    } else if len <= c {
        1
    } else {
        1 + chunk_count(len - c, c)
    }
}

/// The number of pieces is [`chunk_count`].
pub proof fn lemma_chunks_of_len(bytes: Seq<u8>, c: int)
    ensures
        chunks_of(bytes, c).len() == chunk_count(bytes.len() as int, c),
    decreases bytes.len(),
{
    if c > 0 && bytes.len() > c {
        lemma_chunks_of_len(bytes.skip(c), c);
    }
}

/// For a positive length, the piece count is the least number of chunks
/// covering the bytes: `(count - 1) * c < len <= count * c`.
pub proof fn lemma_chunk_count_bounds(len: int, c: int)
    requires
        c > 0,
        len > 0,
    ensures
        chunk_count(len, c) >= 1,
        (chunk_count(len, c) - 1) * c < len <= chunk_count(len, c) * c,
    decreases len,
{
    if len <= c {
        assert((1 - 1) * c == 0) by (nonlinear_arith);
    } else {
        lemma_chunk_count_bounds(len - c, c);
        let k = chunk_count(len - c, c);
        assert((k - 1) * c < len - c <= k * c);
        assert((k + 1 - 1) * c == (k - 1) * c + c) by (nonlinear_arith);
        assert((k + 1) * c == k * c + c) by (nonlinear_arith);
    }
}

/// The closed form of the piece count: `ceil(len / c)`, written with
/// integer division.
pub proof fn lemma_chunk_count_ceil(len: int, c: int)
    requires
        c > 0,
        len >= 0,
    ensures
        chunk_count(len, c) == if len == 0 {
            0int
        } else {
            (len + c - 1) / c
        },
{
    if len > 0 {
        lemma_chunk_count_bounds(len, c);
        let k = chunk_count(len, c);
        let r = len + c - 1 - k * c;
        assert((k - 1) * c == k * c - c) by (nonlinear_arith);
        assert(0 <= r < c);
        lemma_fundamental_div_mod_converse(len + c - 1, c, k, r);
    }
}

/// A bound on the input bounds the piece count: `len <= c * m` gives at most
/// `m` pieces.
pub proof fn lemma_chunk_count_le(len: int, c: int, m: int)
    requires
        c > 0,
        m >= 0,
        0 <= len <= c * m,
    ensures
        chunk_count(len, c) <= m,
{
    if len > 0 {
        lemma_chunk_count_bounds(len, c);
        let k = chunk_count(len, c);
        assert((k - 1) * c < c * m);
        assert(k - 1 < m) by (nonlinear_arith)
            requires
                c > 0,
                (k - 1) * c < c * m,
        ;
    }
}

/// Piece `i` is exactly the byte range it covers.
pub proof fn lemma_chunks_of_index(bytes: Seq<u8>, c: int, i: int)
    requires
        c > 0,
        0 <= i < chunks_of(bytes, c).len(),
    ensures
        chunks_of(bytes, c)[i] == bytes.subrange(
            i * c,
            if (i + 1) * c <= bytes.len() {
                (i + 1) * c
            } else {
                bytes.len() as int
            },
        ),
    decreases bytes.len(),
{
    let pieces = chunks_of(bytes, c);
    if bytes.len() <= c {
        assert(i == 0);
        assert(0 * c == 0) by (nonlinear_arith);
        assert((0 + 1) * c == c) by (nonlinear_arith);
        assert(pieces[0] =~= bytes.subrange(0, bytes.len() as int));
    } else if i == 0 {
        assert(0 * c == 0) by (nonlinear_arith);
        assert((0 + 1) * c == c) by (nonlinear_arith);
        assert(pieces[0] =~= bytes.subrange(0, c));
    } else {
        let rest = bytes.skip(c);
        lemma_chunks_of_index(rest, c, i - 1);
        assert(pieces[i] == chunks_of(rest, c)[i - 1]);
        lemma_chunks_of_len(bytes, c);
        let k = chunk_count(bytes.len() as int, c);
        lemma_chunk_count_bounds(bytes.len() as int, c);
        assert((i - 1) * c == i * c - c) by (nonlinear_arith);
        assert(i * c == (i + 1) * c - c) by (nonlinear_arith);
        assert((i + 1) * c - i * c == c) by (nonlinear_arith);
        assert(i * c - c >= 0) by (nonlinear_arith)
            requires
                i >= 1,
                c > 0,
        ;
        assert(i * c < bytes.len()) by (nonlinear_arith)
            requires
                c > 0,
                i <= k - 1,
                (k - 1) * c < bytes.len(),
        ;
        let lo = i * c - c;
        let hi = if i * c <= rest.len() {
            i * c
        } else {
            rest.len() as int
        };
        assert(chunks_of(rest, c)[i - 1] == rest.subrange(lo, hi));
        let bhi = if (i + 1) * c <= bytes.len() {
            (i + 1) * c
        } else {
            bytes.len() as int
        };
        assert(rest.subrange(lo, hi) =~= bytes.subrange(i * c, bhi));
    }
}

/// Every piece but the last holds exactly `c` bytes; the last holds
/// `len % c` bytes, or `c` when the length is a nonzero multiple of `c`.
pub proof fn lemma_chunks_of_sizes(bytes: Seq<u8>, c: int)
    requires
        c > 0,
    ensures
        forall|i: int|
            0 <= i < chunks_of(bytes, c).len() - 1 ==> (#[trigger] chunks_of(bytes, c)[i]).len()
                == c,
        bytes.len() > 0 ==> chunks_of(bytes, c).last().len() == (if bytes.len() as int % c == 0 {
            c
        } else {
            bytes.len() as int % c
        }),
{
    let pieces = chunks_of(bytes, c);
    let len = bytes.len() as int;
    lemma_chunks_of_len(bytes, c);
    if len > 0 {
        lemma_chunk_count_bounds(len, c);
        let k = chunk_count(len, c);
        assert forall|i: int| 0 <= i < pieces.len() - 1 implies (#[trigger] pieces[i]).len()
            == c by {
            lemma_chunks_of_index(bytes, c, i);
            assert((i + 1) * c <= (k - 1) * c) by (nonlinear_arith)
                requires
                    c > 0,
                    i + 1 <= k - 1,
            ;
            assert((i + 1) * c - i * c == c) by (nonlinear_arith);
        }
        lemma_chunks_of_index(bytes, c, k - 1);
        assert((k - 1 + 1) * c == k * c) by (nonlinear_arith);
        let last_len = len - (k - 1) * c;
        assert(pieces.last().len() == last_len);
        assert((k - 1) * c == k * c - c) by (nonlinear_arith);
        if last_len == c {
            lemma_fundamental_div_mod_converse(len, c, k, 0);
        } else {
            lemma_fundamental_div_mod_converse(len, c, k - 1, last_len);
        }
    }
}

/// Concatenating the pieces in order reproduces the input exactly.
pub proof fn lemma_chunks_of_flatten(bytes: Seq<u8>, c: int)
    requires
        c > 0,
    ensures
        chunks_of(bytes, c).flatten() == bytes,
    decreases bytes.len(),
{
    let pieces = chunks_of(bytes, c);
    if bytes.len() == 0 {
        assert(pieces.flatten() =~= bytes);
    } else if bytes.len() <= c {
        pieces.lemma_flatten_one_element();
        assert(pieces.flatten() =~= bytes);
    } else {
        lemma_chunks_of_flatten(bytes.skip(c), c);
        assert(pieces.first() == bytes.take(c));
        assert(pieces.drop_first() =~= chunks_of(bytes.skip(c), c));
        assert(pieces.flatten() == pieces.first() + pieces.drop_first().flatten());
        assert(bytes.take(c) + bytes.skip(c) =~= bytes);
    }
}

/// Splits `source` into pieces of `chunk_size` bytes, the last piece
/// possibly shorter. A chunk size of zero yields no pieces.
pub fn split_into_chunks(source: &[u8], chunk_size: u32) -> (r: Vec<Vec<u8>>)
    ensures
        r.deep_view() == chunks_of(source@, chunk_size as int),
{
    let mut out: Vec<Vec<u8>> = Vec::new();
    let c = chunk_size as usize;
    if c == 0 {
        proof {
            assert(out.deep_view() =~~= chunks_of(source@, chunk_size as int));
        }
        return out;
    }
    let mut pos: usize = 0;
    proof {
        assert(source@.skip(0) =~= source@);
        assert(out.deep_view() + chunks_of(source@.skip(0), c as int) =~~= chunks_of(
            source@,
            c as int,
        ));
    }
    while pos < source.len()
        invariant
            c == chunk_size as usize,
            c > 0,
            pos <= source@.len(),
            out.deep_view() + chunks_of(source@.skip(pos as int), c as int) == chunks_of(
                source@,
                c as int,
            ),
        decreases source@.len() - pos,
    {
        let remaining = source.len() - pos;
        let take = if remaining < c {
            remaining
        } else {
            c
        };
        let piece = slice_to_vec(slice_subrange(source, pos, pos + take));
        let ghost prev = out.deep_view();
        let ghost rest = source@.skip(pos as int);
        out.push(piece);
        proof {
            assert(piece.deep_view() =~= piece@);
            assert(out.deep_view() =~~= prev.push(piece@));
            let next = source@.skip((pos + take) as int);
            if rest.len() <= c as int {
                assert(piece@ =~= rest);
                assert(next.len() == 0);
                assert(chunks_of(next, c as int) == Seq::<Seq<u8>>::empty());
                assert(chunks_of(rest, c as int) == seq![rest]);
                assert(prev.push(piece@) + chunks_of(next, c as int) =~~= prev + chunks_of(
                    rest,
                    c as int,
                ));
            } else {
                assert(piece@ =~= rest.take(c as int));
                assert(next =~= rest.skip(c as int));
                assert(chunks_of(rest, c as int) == seq![rest.take(c as int)] + chunks_of(
                    rest.skip(c as int),
                    c as int,
                ));
                assert(prev.push(piece@) + chunks_of(next, c as int) =~~= prev + chunks_of(
                    rest,
                    c as int,
                ));
            }
            assert(out.deep_view() + chunks_of(source@.skip((pos + take) as int), c as int) =~~=
            chunks_of(source@, c as int));
        }
        pos = pos + take;
    }
    proof {
        assert(source@.skip(pos as int).len() == 0);
        assert(chunks_of(source@.skip(pos as int), c as int) == Seq::<Seq<u8>>::empty());
        assert(out.deep_view() =~~= chunks_of(source@, chunk_size as int));
    }
    out
}

} // verus!
