//! The favorite store: at most one row per (user, post) pair, toggled on
//! and off, with a paginated join against the post store for a user's
//! favorited posts, ordered by when the favorite was made.

use vstd::prelude::*;

use crate::database::post::contains_post_id;
use crate::database::post::post_idx_of;
use crate::database::post::post_info_matches;
use crate::database::post::PostRepository;
use crate::error::CustomResult;
use crate::handler::idl::PostInfo;
use crate::pagination::eff_page;
use crate::pagination::num_pages;
use crate::pagination::page_bounds;
use crate::pagination::spec_num_pages;
use crate::pagination::spec_page;

verus! {

/// A favorite row: the pair is the identity, `created_at` records when it
/// was made.
#[derive(Debug)]
pub struct Favorite {
    pub user_id: i32,
    pub post_id: i32,
    pub created_at: i64,
}

/// The mathematical image of a favorite row.
pub struct FavoriteView {
    pub user_id: int,
    pub post_id: int,
    pub created_at: int,
}

impl View for Favorite {
    type V = FavoriteView;

    open spec fn view(&self) -> FavoriteView {
        FavoriteView {
            user_id: self.user_id as int,
            post_id: self.post_id as int,
            created_at: self.created_at as int,
        }
    }
}

/// Whether a row for the pair exists.
pub open spec fn contains_pair(s: Seq<FavoriteView>, user_id: int, post_id: int) -> bool {
    exists|i: int|
        0 <= i < s.len() && #[trigger] s[i].user_id == user_id && #[trigger] s[i].post_id
            == post_id
}

/// The index of the pair's row (unique under `favs_wf`).
pub open spec fn pair_idx_of(s: Seq<FavoriteView>, user_id: int, post_id: int) -> int {
    choose|i: int|
        0 <= i < s.len() && #[trigger] s[i].user_id == user_id && #[trigger] s[i].post_id
            == post_id
}

/// Well-formedness of a favorite listing: at most one row per pair, rows
/// ordered by creation time.
pub open spec fn favs_wf(s: Seq<FavoriteView>) -> bool {
    &&& forall|i: int, j: int|
        0 <= i < j < s.len() ==> !(#[trigger] s[i].user_id == #[trigger] s[j].user_id && s[i].post_id
            == s[j].post_id)
    &&& forall|i: int, j: int| 0 <= i <= j < s.len() ==> s[i].created_at <= s[j].created_at
}

/// The position at which a row created at `t` is inserted: after every
/// row created at or before `t`.
pub open spec fn fav_insert_pos(s: Seq<FavoriteView>, t: int) -> int
    decreases s.len(),
{
    if s.len() == 0 {
        0
    } else if s.last().created_at <= t {
        s.len() as int
    } else {
        fav_insert_pos(s.drop_last(), t)
    }
}

/// The listing with `f` inserted at its position.
pub open spec fn fav_inserted(s: Seq<FavoriteView>, f: FavoriteView) -> Seq<FavoriteView> {
    let pos = fav_insert_pos(s, f.created_at);
    s.subrange(0, pos).push(f) + s.subrange(pos, s.len() as int)
}

/// `fav_insert_pos` lies between 0 and the length, everything before it
/// was created at or before `t`, everything after it strictly later.
proof fn lemma_fav_insert_pos(s: Seq<FavoriteView>, t: int)
    requires
        forall|i: int, j: int| 0 <= i <= j < s.len() ==> s[i].created_at <= s[j].created_at,
    ensures
        0 <= fav_insert_pos(s, t) <= s.len(),
        forall|k: int| 0 <= k < fav_insert_pos(s, t) ==> s[k].created_at <= t,
        forall|k: int| fav_insert_pos(s, t) <= k < s.len() ==> s[k].created_at > t,
    decreases s.len(),
{
    if s.len() == 0 {
    } else if s.last().created_at <= t {
        assert forall|k: int| 0 <= k < s.len() implies s[k].created_at <= t by {
            assert(s[k].created_at <= s[s.len() - 1].created_at);
        }
    } else {
        let d = s.drop_last();
        lemma_fav_insert_pos(d, t);
        assert(forall|k: int| 0 <= k < d.len() ==> s[k] == d[k]);
    }
}

/// What one toggle does to the listing, and what it returns: an existing
/// row is removed (returning false), a missing one is added with
/// timestamp `now` (returning true).
pub open spec fn spec_toggle(s: Seq<FavoriteView>, user_id: int, post_id: int, now: int) -> (
    Seq<FavoriteView>,
    bool,
) {
    if contains_pair(s, user_id, post_id) {
        (s.remove(pair_idx_of(s, user_id, post_id)), false)
    } else {
        (fav_inserted(s, FavoriteView { user_id, post_id, created_at: now }), true)
    }
}

/// A toggle keeps the listing well formed, flips exactly the toggled
/// pair's membership, and leaves every other pair's membership alone.
pub proof fn lemma_toggle(s: Seq<FavoriteView>, user_id: int, post_id: int, now: int)
    requires
        favs_wf(s),
    ensures
        favs_wf(spec_toggle(s, user_id, post_id, now).0),
        spec_toggle(s, user_id, post_id, now).1 == !contains_pair(s, user_id, post_id),
        contains_pair(spec_toggle(s, user_id, post_id, now).0, user_id, post_id)
            == !contains_pair(s, user_id, post_id),
        forall|u: int, p: int|
            !(u == user_id && p == post_id) ==> #[trigger] contains_pair(
                spec_toggle(s, user_id, post_id, now).0,
                u,
                p,
            ) == contains_pair(s, u, p),
{
    let out = spec_toggle(s, user_id, post_id, now).0;
    if contains_pair(s, user_id, post_id) {
        let idx = pair_idx_of(s, user_id, post_id);
        assert(0 <= idx < s.len() && s[idx].user_id == user_id && s[idx].post_id == post_id);
        assert(out =~= s.remove(idx));
        assert(forall|k: int|
            0 <= k < out.len() ==> #[trigger] out[k] == if k < idx {
                s[k]
            } else {
                s[k + 1]
            });
        assert forall|u: int, p: int|
            !(u == user_id && p == post_id) implies #[trigger] contains_pair(out, u, p)
            == contains_pair(s, u, p) by {
            if contains_pair(s, u, p) {
                let j = pair_idx_of(s, u, p);
                assert(0 <= j < s.len() && s[j].user_id == u && s[j].post_id == p);
                assert(j != idx);
                let k = if j < idx {
                    j
                } else {
                    j - 1
                };
                assert(out[k].user_id == u && out[k].post_id == p);
            }
            if contains_pair(out, u, p) {
                let k = pair_idx_of(out, u, p);
                assert(0 <= k < out.len() && out[k].user_id == u && out[k].post_id == p);
                let j = if k < idx {
                    k
                } else {
                    k + 1
                };
                assert(s[j].user_id == u && s[j].post_id == p);
            }
        }
        if contains_pair(out, user_id, post_id) {
            let k = pair_idx_of(out, user_id, post_id);
            assert(0 <= k < out.len() && out[k].user_id == user_id && out[k].post_id == post_id);
            let j = if k < idx {
                k
            } else {
                k + 1
            };
            assert(s[j].user_id == user_id && s[j].post_id == post_id);
            assert(j != idx ==> false);
            assert(false);
        }
    } else {
        let f = FavoriteView { user_id, post_id, created_at: now };
        lemma_fav_insert_pos(s, now);
        let pos = fav_insert_pos(s, now);
        assert(out =~= s.subrange(0, pos).push(f) + s.subrange(pos, s.len() as int));
        assert(forall|k: int|
            0 <= k < out.len() ==> #[trigger] out[k] == if k < pos {
                s[k]
            } else if k == pos {
                f
            } else {
                s[k - 1]
            });
        assert(out[pos] == f);
        assert(out[pos].user_id == user_id && out[pos].post_id == post_id);
        assert(contains_pair(out, user_id, post_id));
        assert forall|a: int, b: int|
            0 <= a < b < out.len() implies !(#[trigger] out[a].user_id == #[trigger] out[b].user_id
            && out[a].post_id == out[b].post_id) by {
            if a != pos && b != pos {
                let a0 = if a < pos {
                    a
                } else {
                    a - 1
                };
                let b0 = if b < pos {
                    b
                } else {
                    b - 1
                };
                assert(!(s[a0].user_id == s[b0].user_id && s[a0].post_id == s[b0].post_id));
            } else if a == pos {
                let b0 = b - 1;
                assert(out[b] == s[b0]);
                if out[a].user_id == out[b].user_id && out[a].post_id == out[b].post_id {
                    assert(contains_pair(s, user_id, post_id));
                }
            } else {
                assert(out[a] == s[a]);
                if out[a].user_id == out[b].user_id && out[a].post_id == out[b].post_id {
                    assert(contains_pair(s, user_id, post_id));
                }
            }
        }
        assert forall|u: int, p: int|
            !(u == user_id && p == post_id) implies #[trigger] contains_pair(out, u, p)
            == contains_pair(s, u, p) by {
            if contains_pair(s, u, p) {
                let j = pair_idx_of(s, u, p);
                assert(0 <= j < s.len() && s[j].user_id == u && s[j].post_id == p);
                let k = if j < pos {
                    j
                } else {
                    j + 1
                };
                assert(out[k].user_id == u && out[k].post_id == p);
            }
            if contains_pair(out, u, p) {
                let k = pair_idx_of(out, u, p);
                assert(0 <= k < out.len() && out[k].user_id == u && out[k].post_id == p);
                assert(k != pos);
                let j = if k < pos {
                    k
                } else {
                    k - 1
                };
                assert(s[j].user_id == u && s[j].post_id == p);
            }
        }
    }
}

/// The states and results of a run of toggles on one pair, stamped with
/// the given times.
pub open spec fn spec_toggle_run(
    s: Seq<FavoriteView>,
    user_id: int,
    post_id: int,
    nows: Seq<int>,
) -> (Seq<FavoriteView>, Seq<bool>)
    decreases nows.len(),
{
    if nows.len() == 0 {
        (s, Seq::empty())
    } else {
        let first = spec_toggle(s, user_id, post_id, nows[0]);
        let rest = spec_toggle_run(first.0, user_id, post_id, nows.drop_first());
        (rest.0, seq![first.1] + rest.1)
    }
}

/// Favorite toggles pair up. A run of toggles on one pair returns strictly
/// alternating booleans, starting with the complement of the pair's
/// initial membership; after the run the pair is present exactly when an
/// odd number of toggles flipped it; no other pair's membership changes;
/// and the listing stays well formed. In particular, starting from a state
/// where the pair is absent, the results read true, false, true, false,
/// ... and an even run leaves the pair absent, an odd run present.
pub proof fn lemma_toggle_alternates(
    s: Seq<FavoriteView>,
    user_id: int,
    post_id: int,
    nows: Seq<int>,
)
    requires
        favs_wf(s),
    ensures
        favs_wf(spec_toggle_run(s, user_id, post_id, nows).0),
        spec_toggle_run(s, user_id, post_id, nows).1.len() == nows.len(),
        forall|i: int|
            0 <= i < nows.len() ==> #[trigger] spec_toggle_run(s, user_id, post_id, nows).1[i] == (
            if i % 2 == 0 {
                !contains_pair(s, user_id, post_id)
            } else {
                contains_pair(s, user_id, post_id)
            }),
        contains_pair(spec_toggle_run(s, user_id, post_id, nows).0, user_id, post_id) == (
        if nows.len() % 2 == 0 {
            contains_pair(s, user_id, post_id)
        } else {
            !contains_pair(s, user_id, post_id)
        }),
        forall|u: int, p: int|
            !(u == user_id && p == post_id) ==> #[trigger] contains_pair(
                spec_toggle_run(s, user_id, post_id, nows).0,
                u,
                p,
            ) == contains_pair(s, u, p),
    decreases nows.len(),
{
    if nows.len() == 0 {
    } else {
        lemma_toggle(s, user_id, post_id, nows[0]);
        let first = spec_toggle(s, user_id, post_id, nows[0]);
        lemma_toggle_alternates(first.0, user_id, post_id, nows.drop_first());
        let rest = spec_toggle_run(first.0, user_id, post_id, nows.drop_first());
        let run = spec_toggle_run(s, user_id, post_id, nows);
        assert(run.1 == seq![first.1] + rest.1);
        assert forall|i: int|
            0 <= i < nows.len() implies #[trigger] run.1[i] == (if i % 2 == 0 {
            !contains_pair(s, user_id, post_id)
        } else {
            contains_pair(s, user_id, post_id)
        }) by {
            if i == 0 {
                assert(run.1[0] == first.1);
            } else {
                assert(run.1[i] == rest.1[i - 1]);
                assert((i - 1) % 2 == (if i % 2 == 0 {
                    1int
                } else {
                    0int
                }));
            }
        }
    }
}

/// The favorite store.
pub struct FavoriteRepository {
    pub favorites: Vec<Favorite>,
}

impl View for FavoriteRepository {
    type V = Seq<FavoriteView>;

    open spec fn view(&self) -> Seq<FavoriteView> {
        self.favorites@.map_values(|f: Favorite| f@)
    }
}

impl FavoriteRepository {
    /// Well-formedness: at most one row per pair, rows ordered by
    /// creation time.
    pub open spec fn wf(&self) -> bool {
        favs_wf(self@)
    }

    /// An empty store.
    pub fn new() -> (r: FavoriteRepository)
        ensures
            r.wf(),
            r@ == Seq::<FavoriteView>::empty(),
    {
        let r = FavoriteRepository { favorites: Vec::new() };
        proof {
            assert(r@ =~= Seq::<FavoriteView>::empty());
        }
        r
    }

    /// The position of the pair's row, if any.
    fn find_pair_index(&self, user_id: i32, post_id: i32) -> (r: Option<usize>)
        requires
            self.wf(),
        ensures
            r is Some <==> contains_pair(self@, user_id as int, post_id as int),
            r matches Some(idx) ==> 0 <= idx < self@.len() && self@[idx as int].user_id
                == user_id as int && self@[idx as int].post_id == post_id as int && idx as int
                == pair_idx_of(self@, user_id as int, post_id as int),
    {
        let n = self.favorites.len();
        let mut i: usize = 0;
        while i < n
            invariant
                self.wf(),
                0 <= i <= n,
                n == self@.len(),
                forall|k: int|
                    0 <= k < i ==> !(#[trigger] self@[k].user_id == user_id as int
                        && self@[k].post_id == post_id as int),
            decreases n - i,
        {
            proof {
                assert(self@[i as int] == self.favorites@[i as int]@);
            }
            if self.favorites[i].user_id == user_id && self.favorites[i].post_id == post_id {
                proof {
                    assert(self@[i as int].user_id == user_id as int && self@[i as int].post_id
                        == post_id as int);
                    assert(contains_pair(self@, user_id as int, post_id as int));
                    let w = pair_idx_of(self@, user_id as int, post_id as int);
                    assert(0 <= w < self@.len() && self@[w].user_id == user_id as int
                        && self@[w].post_id == post_id as int);
                    if w < i as int {
                        assert(!(self@[w].user_id == self@[i as int].user_id && self@[w].post_id
                            == self@[i as int].post_id));
                    } else if w > i as int {
                        assert(!(self@[i as int].user_id == self@[w].user_id
                            && self@[i as int].post_id == self@[w].post_id));
                    }
                }
                return Some(i);
            }
            i = i + 1;
        }
        None
    }

    /// Toggles the pair: an existing favorite is removed and `false`
    /// returned; a missing one is added, stamped `now`, and `true`
    /// returned. The store itself cannot fail.
    pub fn toggle_favorite(&mut self, user_id: i32, post_id: i32, now: i64) -> (r: CustomResult<
        bool,
    >)
        requires
            old(self).wf(),
        ensures
            final(self).wf(),
            r is Ok,
            r matches Ok(b) ==> {
                &&& b == spec_toggle(old(self)@, user_id as int, post_id as int, now as int).1
                &&& final(self)@ == spec_toggle(
                    old(self)@,
                    user_id as int,
                    post_id as int,
                    now as int,
                ).0
            },
    {
        proof {
            lemma_toggle(self@, user_id as int, post_id as int, now as int);
        }
        match self.find_pair_index(user_id, post_id) {
            Some(idx) => {
                self.favorites.remove(idx);
                proof {
                    assert(self@ =~= old(self)@.remove(idx as int));
                }
                Ok(false)
            },
            None => {
                let pos = self.find_fav_insert_pos(now);
                self.favorites.insert(pos, Favorite { user_id, post_id, created_at: now });
                proof {
                    let s = old(self)@;
                    let f = FavoriteView {
                        user_id: user_id as int,
                        post_id: post_id as int,
                        created_at: now as int,
                    };
                    assert(self@ =~= s.subrange(0, pos as int).push(f) + s.subrange(
                        pos as int,
                        s.len() as int,
                    ));
                    assert(self@ =~= fav_inserted(s, f));
                }
                Ok(true)
            },
        }
    }

    /// The position at which a row created at `t` is inserted.
    fn find_fav_insert_pos(&self, t: i64) -> (pos: usize)
        requires
            self.wf(),
        ensures
            pos as int == fav_insert_pos(self@, t as int),
            0 <= pos <= self@.len(),
    {
        let mut i = self.favorites.len();
        proof {
            assert(self@.subrange(0, i as int) =~= self@);
        }
        while i > 0
            invariant
                self.wf(),
                0 <= i <= self@.len(),
                fav_insert_pos(self@, t as int) == fav_insert_pos(
                    self@.subrange(0, i as int),
                    t as int,
                ),
                forall|k: int| i <= k < self@.len() ==> self@[k].created_at > t as int,
            ensures
                i == 0 || self@[i - 1].created_at <= t as int,
                fav_insert_pos(self@, t as int) == fav_insert_pos(
                    self@.subrange(0, i as int),
                    t as int,
                ),
            decreases i,
        {
            proof {
                assert(self@[i - 1] == self.favorites@[i - 1]@);
            }
            if self.favorites[i - 1].created_at <= t {
                break ;
            }
            proof {
                let pfx = self@.subrange(0, i as int);
                assert(pfx.last() == self@[i - 1]);
                assert(pfx.drop_last() =~= self@.subrange(0, i - 1));
            }
            i = i - 1;
        }
        proof {
            let pfx = self@.subrange(0, i as int);
            if i == 0 {
                assert(pfx.len() == 0);
            } else {
                assert(pfx.last() == self@[i - 1]);
            }
            assert(fav_insert_pos(pfx, t as int) == i as int);
        }
        i
    }

    /// Whether the user has favorited the post; `false` for unknown users
    /// or posts, never an error.
    pub fn is_favorited(&self, user_id: i32, post_id: i32) -> (r: CustomResult<bool>)
        requires
            self.wf(),
        ensures
            r is Ok,
            r matches Ok(b) ==> b == contains_pair(self@, user_id as int, post_id as int),
    {
        Ok(self.find_pair_index(user_id, post_id).is_some())
    }

    /// One page of the user's favorite rows, most recently favorited
    /// first: `total` and the page count reflect the user's favorite rows,
    /// whether or not the post still exists; the items materialize the page
    /// by joining against the post store, so a favorite whose post has
    /// disappeared contributes no item.
    pub fn get_paginated_user_favorites(
        &self,
        posts: &PostRepository,
        user_id: i32,
        page: u64,
        page_size: u64,
    ) -> (r: CustomResult<(Vec<PostInfo>, u64, u64, u64)>)
        requires
            self.wf(),
            posts.wf(),
            page_size >= 1,
        ensures
            r is Ok,
            r matches Ok(out) ==> {
                let listing = user_favorites(self@, user_id as int);
                let pg = spec_page(listing, eff_page(page as nat), page_size as nat);
                let shown = with_existing_posts(pg, posts@);
                &&& out.0@.len() == shown.len()
                &&& forall|k: int|
                    0 <= k < shown.len() ==> post_info_matches(
                        #[trigger] out.0@[k],
                        posts@[post_idx_of(posts@, shown[k].post_id)],
                    )
                &&& out.1 == spec_num_pages(listing.len(), page_size as nat)
                &&& out.2 == page
                &&& out.3 == listing.len()
            },
    {
        let ghost pred = |f: FavoriteView| f.user_id == user_id as int;
        let ghost haspost = |f: FavoriteView| contains_post_id(posts@, f.post_id);
        let n = self.favorites.len();
        let mut matching: Vec<Favorite> = Vec::new();
        let mut i: usize = 0;
        proof {
            assert(matching@.map_values(|f: Favorite| f@) =~= self@.subrange(0, 0).filter(pred));
        }
        while i < n
            invariant
                self.wf(),
                0 <= i <= n,
                n == self@.len(),
                matching@.map_values(|f: Favorite| f@) == self@.subrange(0, i as int).filter(pred),
                pred == (|f: FavoriteView| f.user_id == user_id as int),
            decreases n - i,
        {
            proof {
                assert(self@[i as int] == self.favorites@[i as int]@);
            }
            let hit = self.favorites[i].user_id == user_id;
            proof {
                reveal(Seq::filter);
                let p = self@.subrange(0, i + 1);
                assert(p.drop_last() =~= self@.subrange(0, i as int));
                assert(p.last() == self@[i as int]);
            }
            if hit {
                matching.push(self.favorites[i].duplicate());
                proof {
                    assert(matching@.map_values(|f: Favorite| f@) =~= self@.subrange(
                        0,
                        i as int,
                    ).filter(pred).push(self@[i as int]));
                }
            }
            i = i + 1;
        }
        proof {
            assert(self@.subrange(0, n as int) =~= self@);
        }
        let total = matching.len();
        let (start, end) = page_bounds(total, page, page_size);
        let ghost listing = user_favorites(self@, user_id as int);
        proof {
            assert(listing.len() == total);
            assert(forall|k: int|
                0 <= k < listing.len() ==> #[trigger] listing[k] == matching@.map_values(
                    |f: Favorite| f@,
                )[total - 1 - k]);
        }
        let mut items: Vec<PostInfo> = Vec::new();
        let mut j: usize = start;
        proof {
            assert(listing.subrange(start as int, start as int).filter(haspost) =~= Seq::<
                FavoriteView,
            >::empty());
        }
        while j < end
            invariant
                posts.wf(),
                start <= j <= end,
                end <= total,
                total == matching@.len(),
                listing.len() == total,
                forall|k: int|
                    0 <= k < listing.len() ==> #[trigger] listing[k] == matching@[total - 1 - k]@,
                haspost == (|f: FavoriteView| contains_post_id(posts@, f.post_id)),
                ({
                    let shown = listing.subrange(start as int, j as int).filter(haspost);
                    &&& items@.len() == shown.len()
                    &&& forall|k: int|
                        0 <= k < shown.len() ==> post_info_matches(
                            #[trigger] items@[k],
                            posts@[post_idx_of(posts@, shown[k].post_id)],
                        )
                }),
            decreases end - j,
        {
            let fav = &matching[total - 1 - j];
            proof {
                reveal(Seq::filter);
                let p = listing.subrange(start as int, j + 1);
                assert(p.drop_last() =~= listing.subrange(start as int, j as int));
                assert(p.last() == listing[j as int]);
                assert(fav@ == listing[j as int]);
            }
            match posts.get_post_by_id(fav.post_id) {
                Ok(Some(p)) => {
                    proof {
                        assert(haspost(listing[j as int]));
                    }
                    items.push(p.to_post_info());
                },
                Ok(None) => {
                    proof {
                        assert(!haspost(listing[j as int]));
                    }
                },
                Err(_) => {
                    proof {
                        assert(false);
                    }
                },
            }
            j = j + 1;
        }
        let pages = num_pages(total as u64, page_size);
        proof {
            let pg = spec_page(listing, eff_page(page as nat), page_size as nat);
            assert(pg =~= listing.subrange(start as int, end as int));
        }
        Ok((items, pages, page, total as u64))
    }
}

impl Favorite {
    /// A field-for-field copy of the row.
    pub fn duplicate(&self) -> (r: Favorite)
        ensures
            r@ == self@,
    {
        Favorite { user_id: self.user_id, post_id: self.post_id, created_at: self.created_at }
    }
}

/// The favorite rows of one user, most recently favorited first.
pub open spec fn user_favorites(s: Seq<FavoriteView>, user_id: int) -> Seq<FavoriteView> {
    s.filter(|f: FavoriteView| f.user_id == user_id).reverse()
}

/// The rows of a page whose post still exists in the post store.
pub open spec fn with_existing_posts(
    pg: Seq<FavoriteView>,
    posts: Seq<crate::database::post::PostView>,
) -> Seq<FavoriteView> {
    pg.filter(|f: FavoriteView| contains_post_id(posts, f.post_id))
}

} // verus!
