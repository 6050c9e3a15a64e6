//! Facts about filtered sequences that the stores share: a filtered
//! sequence draws its elements from the original, so element-wise and
//! pairwise properties carry over.

use vstd::prelude::*;

verus! {

/// Every element of `s.filter(pred)` is an element of `s`.
pub proof fn lemma_filter_membership<T>(s: Seq<T>, pred: spec_fn(T) -> bool)
    ensures
        forall|i: int|
            0 <= i < s.filter(pred).len() ==> s.contains(#[trigger] s.filter(pred)[i]),
    decreases s.len(),
{
    reveal(Seq::filter);
    if s.len() != 0 {
        let d = s.drop_last();
        lemma_filter_membership(d, pred);
        assert forall|i: int|
            0 <= i < s.filter(pred).len() implies s.contains(#[trigger] s.filter(pred)[i]) by {
            let f = s.filter(pred);
            if pred(s.last()) && i == f.len() - 1 {
                assert(s[s.len() - 1] == f[i]);
            } else {
                assert(f[i] == d.filter(pred)[i]);
                assert(d.contains(d.filter(pred)[i]));
                let j = choose|j: int| 0 <= j < d.len() && d[j] == d.filter(pred)[i];
                assert(s[j] == f[i]);
            }
        }
    }
}

/// A pairwise property of `s`, ordered or not, carries over to
/// `s.filter(pred)`: the filtered sequence keeps the original's order.
pub proof fn lemma_filter_pairwise<T>(s: Seq<T>, pred: spec_fn(T) -> bool, rel: spec_fn(T, T) -> bool)
    requires
        forall|i: int, j: int| 0 <= i < j < s.len() ==> #[trigger] rel(s[i], s[j]),
    ensures
        forall|i: int, j: int|
            0 <= i < j < s.filter(pred).len() ==> #[trigger] rel(
                s.filter(pred)[i],
                s.filter(pred)[j],
            ),
    decreases s.len(),
{
    reveal(Seq::filter);
    if s.len() != 0 {
        let d = s.drop_last();
        lemma_filter_pairwise(d, pred, rel);
        lemma_filter_membership(d, pred);
        let f = s.filter(pred);
        assert forall|i: int, j: int|
            0 <= i < j < f.len() implies #[trigger] rel(f[i], f[j]) by {
            if pred(s.last()) && j == f.len() - 1 {
                assert(f[i] == d.filter(pred)[i]);
                assert(d.contains(d.filter(pred)[i]));
                let k = choose|k: int| 0 <= k < d.len() && d[k] == d.filter(pred)[i];
                assert(s[k] == f[i]);
                assert(s[s.len() - 1] == f[j]);
                assert(rel(s[k], s[s.len() - 1]));
            } else {
                assert(f[i] == d.filter(pred)[i]);
                assert(f[j] == d.filter(pred)[j]);
            }
        }
    }
}

/// An element-wise property of `s` carries over to `s.filter(pred)`.
pub proof fn lemma_filter_elementwise<T>(s: Seq<T>, pred: spec_fn(T) -> bool, prop: spec_fn(T) -> bool)
    requires
        forall|i: int| 0 <= i < s.len() ==> #[trigger] prop(s[i]),
    ensures
        forall|i: int| 0 <= i < s.filter(pred).len() ==> #[trigger] prop(s.filter(pred)[i]),
{
    lemma_filter_membership(s, pred);
    assert forall|i: int|
        0 <= i < s.filter(pred).len() implies #[trigger] prop(s.filter(pred)[i]) by {
        assert(s.contains(s.filter(pred)[i]));
        let j = choose|j: int| 0 <= j < s.len() && s[j] == s.filter(pred)[i];
        assert(prop(s[j]));
    }
}

} // verus!
