//! Verified string helpers: equality against literals and the substring
//! test that the post search uses.

use vstd::prelude::*;

verus! {

/// String-slice equality, usable where the contracts speak of views.
pub fn str_eq(a: &str, b: &str) -> (r: bool)
    ensures
        r == (a@ == b@),
{
    let sa = String::from_str(a);
    let sb = String::from_str(b);
    sa == sb
}

/// Whether `n` occurs in `h` as a contiguous substring
/// (the empty sequence occurs in everything).
pub open spec fn spec_contains_substr(h: Seq<char>, n: Seq<char>) -> bool {
    exists|i: int| 0 <= i && i + n.len() <= h.len() && #[trigger] h.subrange(i, i + n.len()) == n
}

/// Whether `n` occurs in `h` starting at position `i`.
spec fn matches_at(h: Seq<char>, n: Seq<char>, i: int) -> bool {
    h.subrange(i, i + n.len()) == n
}

/// Checks whether `needle` occurs in `hay` as a contiguous substring.
pub fn contains_substr(hay: &str, needle: &str) -> (r: bool)
    ensures
        r == spec_contains_substr(hay@, needle@),
{
    let hn = hay.unicode_len();
    let nn = needle.unicode_len();
    if nn > hn {
        proof {
            assert(!spec_contains_substr(hay@, needle@));
        }
        return false;
    }
    let last = hn - nn;
    let mut i: usize = 0;
    loop
        invariant
            0 <= i <= last,
            last == hn - nn,
            nn <= hn,
            hn == hay@.len(),
            nn == needle@.len(),
            forall|k: int| 0 <= k < i ==> !matches_at(hay@, needle@, k),
        ensures
            forall|k: int| 0 <= k <= last ==> !matches_at(hay@, needle@, k),
        decreases last - i,
    {
        let mut j: usize = 0;
        let mut hit = true;
        while j < nn && hit
            invariant
                0 <= j <= nn,
                0 <= i <= last,
                last == hn - nn,
                hn == hay@.len(),
                nn == needle@.len(),
                hit ==> forall|k: int| 0 <= k < j ==> hay@[i + k] == needle@[k],
                !hit ==> !matches_at(hay@, needle@, i as int),
            decreases nn - j, (if hit {
                1int
            } else {
                0int
            }),
        {
            if hay.get_char(i + j) != needle.get_char(j) {
                proof {
                    assert(hay@.subrange(i as int, i + nn)[j as int] == hay@[i + j]);
                }
                hit = false;
            } else {
                j = j + 1;
            }
        }
        if hit {
            proof {
                assert(hay@.subrange(i as int, i + nn) =~= needle@);
                assert(matches_at(hay@, needle@, i as int));
            }
            return true;
        }
        if i == last {
            break ;
        }
        i = i + 1;
    }
    proof {
        assert forall|k: int|
            0 <= k && k + needle@.len() <= hay@.len() implies #[trigger] hay@.subrange(
            k,
            k + needle@.len(),
        ) != needle@ by {
            assert(!matches_at(hay@, needle@, k));
        }
        assert(!spec_contains_substr(hay@, needle@));
    }
    false
}

} // verus!
