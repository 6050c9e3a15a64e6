//! Pagination arithmetic shared by every store: page counting and the slice
//! of a sequence that a 1-indexed page holds, together with the proof that
//! the pages partition the sequence.

use vstd::prelude::*;

verus! {

/// `ceil(total / size)`: how many pages a listing of `total` items has.
/// Zero items give zero pages.
pub open spec fn spec_num_pages(total: nat, size: nat) -> nat
    recommends
        size > 0,
{
    (((total + size - 1) as int) / (size as int)) as nat
}

/// The start index (into the full listing) of 1-indexed page `page`,
/// clipped to the listing's length.
pub open spec fn spec_page_start(len: nat, page: nat, size: nat) -> nat
    recommends
        page >= 1,
{
    if (page - 1) * size > len {
        len
    } else {
        ((page - 1) * size) as nat
    }
}

/// The end index (exclusive) of 1-indexed page `page`, clipped to the
/// listing's length.
pub open spec fn spec_page_end(len: nat, page: nat, size: nat) -> nat
    recommends
        page >= 1,
{
    if spec_page_start(len, page, size) + size > len {
        len
    } else {
        spec_page_start(len, page, size) + size
    }
}

/// The slice of `s` that 1-indexed page `page` holds, `size` items per page.
/// Pages past the end are empty.
pub open spec fn spec_page<T>(s: Seq<T>, page: nat, size: nat) -> Seq<T>
    recommends
        page >= 1,
        size > 0,
{
    s.subrange(
        spec_page_start(s.len(), page, size) as int,
        spec_page_end(s.len(), page, size) as int,
    )
}

/// Pages 1 through `upto` of `s`, concatenated in order.
pub open spec fn spec_pages_concat<T>(s: Seq<T>, size: nat, upto: nat) -> Seq<T>
    decreases upto,
{
    if upto == 0 {
        Seq::empty()
    } else {
        spec_pages_concat(s, size, (upto - 1) as nat) + spec_page(s, upto, size)
    }
}

/// The number of pages for `total` items at `size` per page:
/// `ceil(total / size)`, and 0 when `total` is 0.
pub fn num_pages(total: u64, size: u64) -> (r: u64)
    requires
        size > 0,
    ensures
        r == spec_num_pages(total as nat, size as nat),
{
    let q: u64 = total / size;
    if total % size == 0 {
        assert(q == spec_num_pages(total as nat, size as nat)) by (nonlinear_arith)
            requires
                size > 0,
                q == total as int / size as int,
                total as int % size as int == 0,
        ;
        q
    } else {
        assert(q < u64::MAX && q + 1 == spec_num_pages(total as nat, size as nat))
            by (nonlinear_arith)
            requires
                size > 0,
                q == total as int / size as int,
                total as int % size as int != 0,
                total <= u64::MAX,
        ;
        q + 1
    }
}

/// The page number a request addresses: page 0 is treated as page 1,
/// matching a 1-indexed surface over a 0-indexed backend.
pub open spec fn eff_page(page: nat) -> nat {
    if page == 0 {
        1
    } else {
        page
    }
}

/// The index range of the requested page within a listing of `len` items:
/// start and (exclusive) end, both clipped to `len`.
pub fn page_bounds(len: usize, page: u64, size: u64) -> (r: (usize, usize))
    requires
        size >= 1,
    ensures
        r.0 == spec_page_start(len as nat, eff_page(page as nat), size as nat),
        r.1 == spec_page_end(len as nat, eff_page(page as nat), size as nat),
        r.0 <= r.1 <= len,
{
    let p: u64 = if page == 0 {
        1
    } else {
        page
    };
    let start: usize = match (p - 1).checked_mul(size) {
        Some(v) => if v > len as u64 {
            len
        } else {
            proof {
                assert(v == ((p - 1) as int) * (size as int));
            }
            v as usize
        },
        None => {
            proof {
                assert(((p - 1) as int) * (size as int) > u64::MAX >= len) by (nonlinear_arith)
                    requires
                        ((p - 1) as int) * (size as int) > u64::MAX,
                        len <= u64::MAX,
                ;
            }
            len
        },
    };
    let end: usize = if size >= (len - start) as u64 {
        len
    } else {
        start + (size as usize)
    };
    (start, end)
}

/// The concatenation of pages 1 through `upto` is exactly the first
/// `min(upto * size, len)` items of the listing.
proof fn lemma_pages_concat_prefix<T>(s: Seq<T>, size: nat, upto: nat)
    requires
        size > 0,
    ensures
        spec_pages_concat(s, size, upto) == if upto * size > s.len() {
            s
        } else {
            s.subrange(0, (upto * size) as int)
        },
    decreases upto,
{
    if upto == 0 {
        assert(spec_pages_concat(s, size, 0) =~= s.subrange(0, 0));
    } else {
        let prev = (upto - 1) as nat;
        lemma_pages_concat_prefix(s, size, prev);
        assert(prev * size == upto * size - size) by (nonlinear_arith)
            requires
                prev == upto - 1,
        ;
        assert(prev * size >= 0) by (nonlinear_arith)
            requires
                prev >= 0,
                size > 0,
        ;
        if prev * size > s.len() {
            assert(upto * size > s.len()) by (nonlinear_arith)
                requires
                    prev * size > s.len(),
                    upto * size == prev * size + size,
                    size > 0,
            ;
            assert(spec_page(s, upto, size) =~= Seq::<T>::empty());
            assert(spec_pages_concat(s, size, upto) =~= s);
        } else {
            assert(spec_page_start(s.len(), upto, size) == if prev * size > s.len() {
                s.len()
            } else {
                prev * size
            });
            if upto * size > s.len() {
                assert(spec_pages_concat(s, size, upto) =~= s);
            } else {
                assert(spec_pages_concat(s, size, upto) =~= s.subrange(0, (upto * size) as int));
            }
        }
    }
}

/// Pagination partitions the listing: concatenating all
/// `spec_num_pages(s.len(), size)` pages, in order, yields exactly `s` —
/// every item once, no duplicates, in the listing's own order.
pub proof fn lemma_pages_cover<T>(s: Seq<T>, size: nat)
    requires
        size > 0,
    ensures
        spec_pages_concat(s, size, spec_num_pages(s.len(), size)) == s,
{
    let n = spec_num_pages(s.len(), size);
    lemma_pages_concat_prefix(s, size, n);
    assert(n * size >= s.len()) by (nonlinear_arith)
        requires
            size > 0,
            n == ((s.len() + size - 1) as int) / (size as int),
    ;
    if n * size == s.len() {
        assert(spec_pages_concat(s, size, n) =~= s);
    }
}

/// A page of a sequence ordered by a descending key is itself ordered by
/// that key, being a contiguous slice.
pub proof fn lemma_page_preserves_order<T>(
    s: Seq<T>,
    page: nat,
    size: nat,
    leq: spec_fn(T, T) -> bool,
)
    requires
        page >= 1,
        size > 0,
        forall|i: int, j: int| 0 <= i <= j < s.len() ==> #[trigger] leq(s[i], s[j]),
    ensures
        forall|i: int, j: int|
            0 <= i <= j < spec_page(s, page, size).len() ==> #[trigger] leq(
                spec_page(s, page, size)[i],
                spec_page(s, page, size)[j],
            ),
{
}

} // verus!
