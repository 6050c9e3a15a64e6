//! The comment store: records scoped to a post, with optional nesting
//! through a parent reference, time-ordered listing, and cascade deletion
//! of a comment's whole reply subtree.
//!
//! The store keeps three invariants: ids are unique, rows are ordered by
//! creation time, and a reply's parent always exists earlier in the
//! listing. To keep the last two compatible, a reply is never recorded
//! earlier than its parent: its timestamp is clamped to the parent's.

use vstd::prelude::*;

use crate::error::CustomError;
use crate::error::CustomResult;
use crate::handler::idl::CommentInfo;
use crate::handler::idl::CreateCommentRequest;
use crate::handler::idl::UpdateCommentRequest;
use crate::pagination::eff_page;
use crate::pagination::num_pages;
use crate::pagination::page_bounds;
use crate::pagination::spec_num_pages;
use crate::pagination::spec_page;

verus! {

/// A stored comment record; `parent_id` links a reply to the comment it
/// answers.
#[derive(Debug)]
pub struct Comment {
    pub id: i32,
    pub content: String,
    pub post_id: i32,
    pub user_id: i32,
    pub parent_id: Option<i32>,
    pub created_at: i64,
}

/// The mathematical image of a comment record.
pub struct CommentView {
    pub id: int,
    pub content: Seq<char>,
    pub post_id: int,
    pub user_id: int,
    pub parent_id: Option<int>,
    pub created_at: int,
}

impl View for Comment {
    type V = CommentView;

    open spec fn view(&self) -> CommentView {
        CommentView {
            id: self.id as int,
            content: self.content@,
            post_id: self.post_id as int,
            user_id: self.user_id as int,
            parent_id: match self.parent_id {
                Some(p) => Some(p as int),
                None => None,
            },
            created_at: self.created_at as int,
        }
    }
}

impl Comment {
    /// A field-for-field copy of the record.
    pub fn duplicate(&self) -> (r: Comment)
        ensures
            r@ == self@,
    {
        Comment {
            id: self.id,
            content: self.content.clone(),
            post_id: self.post_id,
            user_id: self.user_id,
            parent_id: self.parent_id,
            created_at: self.created_at,
        }
    }

    /// The record as the API returns it.
    pub fn to_comment_info(&self) -> (r: CommentInfo)
        ensures
            comment_info_matches(r, self@),
    {
        CommentInfo {
            id: self.id,
            content: self.content.clone(),
            post_id: self.post_id,
            user_id: self.user_id,
            parent_id: self.parent_id,
            created_at: self.created_at,
        }
    }
}

/// Whether an API payload matches a stored record, field for field.
pub open spec fn comment_info_matches(i: CommentInfo, c: CommentView) -> bool {
    &&& i.id == c.id
    &&& i.content@ == c.content
    &&& i.post_id == c.post_id
    &&& i.user_id == c.user_id
    &&& (match i.parent_id {
        Some(p) => c.parent_id == Some(p as int),
        None => c.parent_id is None,
    })
    &&& i.created_at == c.created_at
}

/// Whether some record in `s` has id `id`.
pub open spec fn contains_comment_id(s: Seq<CommentView>, id: int) -> bool {
    exists|i: int| 0 <= i < s.len() && #[trigger] s[i].id == id
}

/// The index of the record with id `id` (unique under `wf`).
pub open spec fn comment_idx_of(s: Seq<CommentView>, id: int) -> int {
    choose|i: int| 0 <= i < s.len() && #[trigger] s[i].id == id
}

// ------------------------------------------------------------------
// The cascade: deleting a comment deletes its whole reply subtree.
// The pass walks the listing front to back carrying the set of dead ids;
// a row dies when its own id or its parent's id is already dead.
// ------------------------------------------------------------------
/// Whether a row dies given the ids already dead.
pub open spec fn is_dead(c: CommentView, dead: Set<int>) -> bool {
    dead.contains(c.id) || (c.parent_id matches Some(p) && dead.contains(p))
}

/// The ids dead after the first `i` rows have been processed, starting
/// from the deleted id `target`.
pub open spec fn dead_ids(s: Seq<CommentView>, target: int, i: int) -> Set<int>
    decreases i,
{
    if i <= 0 {
        Set::empty().insert(target)
    } else {
        let d = dead_ids(s, target, i - 1);
        if is_dead(s[i - 1], d) {
            d.insert(s[i - 1].id)
        } else {
            d
        }
    }
}

/// Whether the row at `j` survives the cascade for `target`.
pub open spec fn alive(s: Seq<CommentView>, target: int, j: int) -> bool {
    !is_dead(s[j], dead_ids(s, target, j))
}

/// The surviving rows among the first `i`, in their original order.
pub open spec fn surviving_prefix(s: Seq<CommentView>, target: int, i: int) -> Seq<CommentView>
    decreases i,
{
    if i <= 0 {
        Seq::empty()
    } else {
        let pre = surviving_prefix(s, target, i - 1);
        if alive(s, target, i - 1) {
            pre.push(s[i - 1])
        } else {
            pre
        }
    }
}

/// What the cascade leaves of the listing.
pub open spec fn cascade_deleted(s: Seq<CommentView>, target: int) -> Seq<CommentView> {
    surviving_prefix(s, target, s.len() as int)
}

/// The original positions of the survivors among the first `i` rows, in
/// order.
pub open spec fn alive_indices(s: Seq<CommentView>, target: int, i: int) -> Seq<int>
    decreases i,
{
    if i <= 0 {
        Seq::empty()
    } else {
        let pre = alive_indices(s, target, i - 1);
        if alive(s, target, i - 1) {
            pre.push(i - 1)
        } else {
            pre
        }
    }
}

/// The dead set only grows along the pass.
proof fn lemma_dead_monotone(s: Seq<CommentView>, target: int, i1: int, i2: int)
    requires
        i1 <= i2,
    ensures
        forall|x: int|
            dead_ids(s, target, i1).contains(x) ==> dead_ids(s, target, i2).contains(x),
    decreases i2 - i1,
{
    if i1 < i2 {
        lemma_dead_monotone(s, target, i1, i2 - 1);
    }
}

/// The survivors are the rows at the alive indices: the index list is
/// strictly increasing, stays below `i`, and carries exactly the alive
/// positions.
proof fn lemma_alive_indices(s: Seq<CommentView>, target: int, i: int)
    requires
        0 <= i <= s.len(),
    ensures
        alive_indices(s, target, i).len() == surviving_prefix(s, target, i).len(),
        forall|k: int|
            0 <= k < alive_indices(s, target, i).len() ==> 0 <= #[trigger] alive_indices(
                s,
                target,
                i,
            )[k] < i,
        forall|k: int|
            0 <= k < alive_indices(s, target, i).len() ==> surviving_prefix(s, target, i)[k]
                == s[#[trigger] alive_indices(s, target, i)[k]],
        forall|k1: int, k2: int|
            0 <= k1 < k2 < alive_indices(s, target, i).len() ==> #[trigger] alive_indices(
                s,
                target,
                i,
            )[k1] < #[trigger] alive_indices(s, target, i)[k2],
        forall|j: int|
            0 <= j < i && alive(s, target, j) ==> alive_indices(s, target, i).contains(j),
        forall|k: int|
            0 <= k < alive_indices(s, target, i).len() ==> alive(
                s,
                target,
                #[trigger] alive_indices(s, target, i)[k],
            ),
    decreases i,
{
    if i > 0 {
        lemma_alive_indices(s, target, i - 1);
        assert forall|j: int|
            0 <= j < i && alive(s, target, j) implies alive_indices(s, target, i).contains(
            j,
        ) by {
            if j < i - 1 {
                assert(alive_indices(s, target, i - 1).contains(j));
                let k = choose|k: int|
                    0 <= k < alive_indices(s, target, i - 1).len() && #[trigger] alive_indices(
                        s,
                        target,
                        i - 1,
                    )[k] == j;
                assert(alive_indices(s, target, i)[k] == j);
            } else {
                assert(alive(s, target, i - 1));
                let a = alive_indices(s, target, i);
                assert(a[a.len() - 1] == j);
            }
        }
    }
}

/// A survivor's parent survives too, earlier in the listing: the cascade
/// leaves no dangling parent references.
proof fn lemma_cascade_parents(s: Seq<CommentView>, target: int, k: int)
    requires
        0 <= k < cascade_deleted(s, target).len(),
        forall|i: int, j: int|
            0 <= i < j < s.len() ==> #[trigger] s[i].id != #[trigger] s[j].id,
        forall|i: int|
            0 <= i < s.len() ==> (#[trigger] s[i].parent_id matches Some(p) ==> exists|j: int|
                0 <= j < i && #[trigger] s[j].id == p),
        cascade_deleted(s, target)[k].parent_id is Some,
    ensures
        exists|k2: int|
            0 <= k2 < k && #[trigger] cascade_deleted(s, target)[k2].id == cascade_deleted(
                s,
                target,
            )[k].parent_id.unwrap(),
{
    let n = s.len() as int;
    lemma_alive_indices(s, target, n);
    let a = alive_indices(s, target, n);
    let out = cascade_deleted(s, target);
    let i0 = a[k];
    assert(out[k] == s[i0]);
    let pid = s[i0].parent_id.unwrap();
    let j = choose|j: int| 0 <= j < i0 && #[trigger] s[j].id == pid;
    // the parent is alive: were it dead, its id would be dead by step j+1,
    // hence dead at step i0, killing the survivor — a contradiction.
    if !alive(s, target, j) {
        assert(dead_ids(s, target, j + 1).contains(s[j].id));
        lemma_dead_monotone(s, target, j + 1, i0);
        assert(is_dead(s[i0], dead_ids(s, target, i0)));
        assert(!alive(s, target, i0));
        assert(false);
    }
    assert(a.contains(j));
    let k2 = choose|k2: int| 0 <= k2 < a.len() && a[k2] == j;
    assert(out[k2].id == pid);
    // positions in the survivor listing respect original order
    if k2 >= k {
        if k2 == k {
            assert(a[k2] == i0 && a[k2] == j);
            assert(false);
        } else {
            assert(a[k] < a[k2]);
            assert(false);
        }
    }
}

/// The position at which a record created at `t` is inserted: after every
/// record created at or before `t`.
pub open spec fn comment_insert_pos(s: Seq<CommentView>, t: int) -> int
    decreases s.len(),
{
    if s.len() == 0 {
        0
    } else if s.last().created_at <= t {
        s.len() as int
    } else {
        comment_insert_pos(s.drop_last(), t)
    }
}

/// The listing with `c` inserted at its position.
pub open spec fn comment_inserted(s: Seq<CommentView>, c: CommentView) -> Seq<CommentView> {
    let pos = comment_insert_pos(s, c.created_at);
    s.subrange(0, pos).push(c) + s.subrange(pos, s.len() as int)
}

/// `comment_insert_pos` lies between 0 and the length, everything before
/// it was created at or before `t`, everything after it strictly later.
pub proof fn lemma_comment_insert_pos(s: Seq<CommentView>, t: int)
    requires
        forall|i: int, j: int| 0 <= i <= j < s.len() ==> s[i].created_at <= s[j].created_at,
    ensures
        0 <= comment_insert_pos(s, t) <= s.len(),
        forall|k: int| 0 <= k < comment_insert_pos(s, t) ==> s[k].created_at <= t,
        forall|k: int| comment_insert_pos(s, t) <= k < s.len() ==> s[k].created_at > t,
    decreases s.len(),
{
    if s.len() == 0 {
    } else if s.last().created_at <= t {
        assert forall|k: int| 0 <= k < s.len() implies s[k].created_at <= t by {
            assert(s[k].created_at <= s[s.len() - 1].created_at);
        }
    } else {
        let d = s.drop_last();
        lemma_comment_insert_pos(d, t);
        assert(forall|k: int| 0 <= k < d.len() ==> s[k] == d[k]);
    }
}

/// The comment store. `next_id` is the id the next created record
/// receives.
pub struct CommentRepository {
    pub comments: Vec<Comment>,
    pub next_id: i32,
}

impl View for CommentRepository {
    type V = Seq<CommentView>;

    open spec fn view(&self) -> Seq<CommentView> {
        self.comments@.map_values(|c: Comment| c@)
    }
}

/// Two distinct rows of a well-formed store have distinct ids.
proof fn lemma_distinct_comment_ids(repo: &CommentRepository, a: int, b: int)
    requires
        repo.wf(),
        0 <= a < b < repo@.len(),
    ensures
        repo@[a].id != repo@[b].id,
{
}

impl CommentRepository {
    /// The id the next created record receives.
    pub open spec fn spec_next_id(&self) -> int {
        self.next_id as int
    }

    /// Well-formedness: ids are positive, below `next_id` and unique; rows
    /// are ordered by creation time; a reply's parent exists earlier in
    /// the listing.
    pub open spec fn wf(&self) -> bool {
        &&& 1 <= self.next_id
        &&& forall|i: int| 0 <= i < self@.len() ==> 0 < #[trigger] self@[i].id < self.spec_next_id()
        &&& forall|i: int, j: int|
            0 <= i < j < self@.len() ==> #[trigger] self@[i].id != #[trigger] self@[j].id
        &&& forall|i: int, j: int|
            0 <= i <= j < self@.len() ==> self@[i].created_at <= self@[j].created_at
        &&& forall|i: int|
            0 <= i < self@.len() ==> (#[trigger] self@[i].parent_id matches Some(p) ==> exists|
                j: int,
            |
                0 <= j < i && #[trigger] self@[j].id == p)
    }

    /// An empty store whose first record will get id 1.
    pub fn new() -> (r: CommentRepository)
        ensures
            r.wf(),
            r@ == Seq::<CommentView>::empty(),
            r.spec_next_id() == 1,
    {
        let r = CommentRepository { comments: Vec::new(), next_id: 1 };
        proof {
            assert(r@ =~= Seq::<CommentView>::empty());
        }
        r
    }

    /// Creates a comment by `user_id` under the request's post. A reply's
    /// parent must exist, or the call fails with `NotFound`; a reply is
    /// stamped no earlier than its parent, and the record takes its place
    /// in creation-time order, always after its parent. Fails with
    /// `InternalServerError` when the id space is exhausted. On failure
    /// the store is unchanged.
    pub fn create_comment(&mut self, req: CreateCommentRequest, user_id: i32, now: i64) -> (r:
        CustomResult<Comment>)
        requires
            old(self).wf(),
        ensures
            final(self).wf(),
            r is Ok <==> (req.parent_id matches Some(p) ==> contains_comment_id(
                old(self)@,
                p as int,
            )) && old(self).spec_next_id() < i32::MAX,
            r matches Ok(c) ==> {
                &&& c@.id == old(self).spec_next_id()
                &&& c@.content == req.content@
                &&& c@.post_id == req.post_id as int
                &&& c@.user_id == user_id as int
                &&& (match req.parent_id {
                    Some(p) => c@.parent_id == Some(p as int),
                    None => c@.parent_id is None,
                })
                &&& c@.created_at == (match req.parent_id {
                    Some(p) => {
                        let pt = old(self)@[comment_idx_of(old(self)@, p as int)].created_at;
                        if pt > now as int {
                            pt
                        } else {
                            now as int
                        }
                    },
                    None => now as int,
                })
                &&& final(self)@ == comment_inserted(old(self)@, c@)
                &&& final(self).spec_next_id() == old(self).spec_next_id() + 1
            },
            r is Err ==> final(self)@ == old(self)@ && final(self).spec_next_id() == old(
                self,
            ).spec_next_id(),
            r matches Err(e) ==> if req.parent_id matches Some(p) && !contains_comment_id(
                old(self)@,
                p as int,
            ) {
                e is NotFound
            } else {
                e is InternalServerError
            },
    {
        let ghost parent_pos: int = 0int;
        let created_at: i64 = match req.parent_id {
            Some(p) => {
                match self.find_index_by_id(p) {
                    Some(idx) => {
                        proof {
                            parent_pos = idx as int;
                            assert(self@[idx as int] == self.comments@[idx as int]@);
                        }
                        let pt = self.comments[idx].created_at;
                        if pt > now {
                            pt
                        } else {
                            now
                        }
                    },
                    None => {
                        return Err(
                            CustomError::NotFound(
                                String::from_str("the parent comment was not found"),
                            ),
                        );
                    },
                }
            },
            None => now,
        };
        if self.next_id == i32::MAX {
            return Err(
                CustomError::InternalServerError(String::from_str("the id space is exhausted")),
            );
        }
        let comment = Comment {
            id: self.next_id,
            content: req.content,
            post_id: req.post_id,
            user_id,
            parent_id: req.parent_id,
            created_at,
        };
        let copy = comment.duplicate();
        let pos = self.find_comment_insert_pos(created_at);
        self.comments.insert(pos, comment);
        self.next_id = self.next_id + 1;
        proof {
            let s = old(self)@;
            let p = pos as int;
            lemma_comment_insert_pos(s, created_at as int);
            assert(self@ =~= s.subrange(0, p).push(copy@) + s.subrange(p, s.len() as int));
            assert(self@ =~= comment_inserted(s, copy@));
            assert(forall|k: int|
                0 <= k < self@.len() ==> #[trigger] self@[k] == if k < p {
                    s[k]
                } else if k == p {
                    copy@
                } else {
                    s[k - 1]
                });
            assert forall|a: int, b: int|
                0 <= a < b < self@.len() implies #[trigger] self@[a].id != #[trigger] self@[b].id by {
                if a != p && b != p {
                    let a0 = if a < p {
                        a
                    } else {
                        a - 1
                    };
                    let b0 = if b < p {
                        b
                    } else {
                        b - 1
                    };
                    lemma_distinct_comment_ids(old(self), a0, b0);
                }
            }
            if req.parent_id is Some {
                assert(s[parent_pos].created_at <= created_at as int);
                assert(parent_pos < p);
            }
            assert forall|a: int|
                0 <= a < self@.len() implies (#[trigger] self@[a].parent_id matches Some(pid)
                ==> exists|j: int| 0 <= j < a && #[trigger] self@[j].id == pid) by {
                if self@[a].parent_id is Some {
                    let pid = self@[a].parent_id.unwrap();
                    if a == p {
                        assert(self@[parent_pos].id == pid);
                    } else {
                        let a0 = if a < p {
                            a
                        } else {
                            a - 1
                        };
                        assert(self@[a] == s[a0]);
                        let j0 = choose|j0: int| 0 <= j0 < a0 && #[trigger] s[j0].id == pid;
                        let j = if j0 < p {
                            j0
                        } else {
                            j0 + 1
                        };
                        assert(self@[j].id == pid);
                        assert(j < a);
                    }
                }
            }
        }
        Ok(copy)
    }

    /// The position at which a record created at `t` is inserted.
    fn find_comment_insert_pos(&self, t: i64) -> (pos: usize)
        requires
            self.wf(),
        ensures
            pos as int == comment_insert_pos(self@, t as int),
            0 <= pos <= self@.len(),
    {
        let mut i = self.comments.len();
        proof {
            assert(self@.subrange(0, i as int) =~= self@);
        }
        while i > 0
            invariant
                self.wf(),
                0 <= i <= self@.len(),
                comment_insert_pos(self@, t as int) == comment_insert_pos(
                    self@.subrange(0, i as int),
                    t as int,
                ),
                forall|k: int| i <= k < self@.len() ==> self@[k].created_at > t as int,
            ensures
                i == 0 || self@[i - 1].created_at <= t as int,
                comment_insert_pos(self@, t as int) == comment_insert_pos(
                    self@.subrange(0, i as int),
                    t as int,
                ),
            decreases i,
        {
            proof {
                assert(self@[i - 1] == self.comments@[i - 1]@);
            }
            if self.comments[i - 1].created_at <= t {
                break ;
            }
            proof {
                let pfx = self@.subrange(0, i as int);
                assert(pfx.last() == self@[i - 1]);
                assert(pfx.drop_last() =~= self@.subrange(0, i - 1));
            }
            i = i - 1;
        }
        proof {
            let pfx = self@.subrange(0, i as int);
            if i == 0 {
                assert(pfx.len() == 0);
            } else {
                assert(pfx.last() == self@[i - 1]);
            }
            assert(comment_insert_pos(pfx, t as int) == i as int);
        }
        i
    }


    /// The position of the record with id `comment_id`, if any.
    fn find_index_by_id(&self, comment_id: i32) -> (r: Option<usize>)
        requires
            self.wf(),
        ensures
            r is Some <==> contains_comment_id(self@, comment_id as int),
            r matches Some(idx) ==> 0 <= idx < self@.len() && self@[idx as int].id
                == comment_id as int && idx as int == comment_idx_of(self@, comment_id as int),
    {
        let n = self.comments.len();
        let mut i: usize = 0;
        while i < n
            invariant
                self.wf(),
                0 <= i <= n,
                n == self@.len(),
                forall|k: int| 0 <= k < i ==> #[trigger] self@[k].id != comment_id as int,
            decreases n - i,
        {
            proof {
                assert(self@[i as int] == self.comments@[i as int]@);
            }
            if self.comments[i].id == comment_id {
                proof {
                    assert(self@[i as int].id == comment_id as int);
                    assert(contains_comment_id(self@, comment_id as int));
                    let w = comment_idx_of(self@, comment_id as int);
                    assert(0 <= w < self@.len() && self@[w].id == comment_id as int);
                    if w < i as int {
                        lemma_distinct_comment_ids(self, w, i as int);
                    } else if w > i as int {
                        lemma_distinct_comment_ids(self, i as int, w);
                    }
                }
                return Some(i);
            }
            i = i + 1;
        }
        None
    }

    /// Looks a comment up by id. `Ok(Some(..))` exactly when the id
    /// exists.
    pub fn get_comment_by_id(&self, comment_id: i32) -> (r: CustomResult<Option<Comment>>)
        requires
            self.wf(),
        ensures
            r is Ok,
            r matches Ok(opt) ==> {
                &&& opt is Some <==> contains_comment_id(self@, comment_id as int)
                &&& opt matches Some(c) ==> 0 <= comment_idx_of(self@, comment_id as int)
                    < self@.len() && c@ == self@[comment_idx_of(self@, comment_id as int)]
            },
    {
        match self.find_index_by_id(comment_id) {
            Some(idx) => Ok(Some(self.comments[idx].duplicate())),
            None => Ok(None),
        }
    }

    /// Replaces the content of the comment with id `comment_id`; every
    /// other field is immutable. Fails with `NotFound` exactly when the id
    /// does not exist; on failure the store is unchanged.
    pub fn update_comment(&mut self, comment_id: i32, req: UpdateCommentRequest) -> (r:
        CustomResult<Comment>)
        requires
            old(self).wf(),
        ensures
            final(self).wf(),
            final(self).spec_next_id() == old(self).spec_next_id(),
            r is Ok <==> contains_comment_id(old(self)@, comment_id as int),
            r matches Ok(c) ==> {
                let idx = comment_idx_of(old(self)@, comment_id as int);
                &&& c@ == (CommentView { content: req.content@, ..old(self)@[idx] })
                &&& final(self)@ == old(self)@.update(idx, c@)
            },
            r matches Err(e) ==> final(self)@ == old(self)@ && e is NotFound,
    {
        let idx = match self.find_index_by_id(comment_id) {
            Some(idx) => idx,
            None => {
                return Err(CustomError::NotFound(String::from_str("the comment was not found")));
            },
        };
        let cur = &self.comments[idx];
        let new_comment = Comment {
            id: cur.id,
            content: req.content,
            post_id: cur.post_id,
            user_id: cur.user_id,
            parent_id: cur.parent_id,
            created_at: cur.created_at,
        };
        let copy = new_comment.duplicate();
        self.comments[idx] = new_comment;
        proof {
            let s = old(self)@;
            let i = idx as int;
            assert(self@ =~= s.update(i, copy@));
            assert forall|a: int, b: int|
                0 <= a < b < self@.len() implies #[trigger] self@[a].id != #[trigger] self@[b].id by {
                if a != i && b != i {
                    lemma_distinct_comment_ids(old(self), a, b);
                }
            }
            assert forall|a: int|
                0 <= a < self@.len() implies (#[trigger] self@[a].parent_id matches Some(p)
                ==> exists|j: int| 0 <= j < a && #[trigger] self@[j].id == p) by {
                if self@[a].parent_id is Some {
                    let p = self@[a].parent_id.unwrap();
                    assert(s[a].parent_id == self@[a].parent_id);
                    let j = choose|j: int| 0 <= j < a && #[trigger] s[j].id == p;
                    assert(self@[j].id == p);
                }
            }
        }
        Ok(copy)
    }

    /// Deletes the comment with id `comment_id` and, transitively, every
    /// reply in its subtree (a reply cannot outlive its parent). Fails
    /// with `NotFound` exactly when the id does not exist; on failure the
    /// store is unchanged.
    pub fn delete_comment(&mut self, comment_id: i32) -> (r: CustomResult<()>)
        requires
            old(self).wf(),
        ensures
            final(self).wf(),
            final(self).spec_next_id() == old(self).spec_next_id(),
            r is Ok <==> contains_comment_id(old(self)@, comment_id as int),
            r is Ok ==> final(self)@ == cascade_deleted(old(self)@, comment_id as int),
            r matches Err(e) ==> final(self)@ == old(self)@ && e is NotFound,
    {
        if self.find_index_by_id(comment_id).is_none() {
            return Err(
                CustomError::NotFound(
                    String::from_str("the comment was not found or is already deleted"),
                ),
            );
        }
        let ghost s = self@;
        let ghost target = comment_id as int;
        let n = self.comments.len();
        let mut kept: Vec<Comment> = Vec::new();
        let mut dead: Vec<i32> = Vec::new();
        dead.push(comment_id);
        proof {
            assert(kept@.map_values(|c: Comment| c@) =~= surviving_prefix(s, target, 0));
            let d0 = dead_ids(s, target, 0);
            assert(dead@.len() == 1 && dead@[0] == comment_id);
            assert forall|x: int| d0.contains(x) implies exists|k: int|
                0 <= k < dead@.len() && #[trigger] dead@[k] == x by {
                assert(x == target);
                assert(dead@[0] == x);
            }
            assert forall|x: int|
                (exists|k: int| 0 <= k < dead@.len() && #[trigger] dead@[k] == x) implies #[trigger] d0.contains(
                x,
            ) by {
                let k = choose|k: int| 0 <= k < dead@.len() && #[trigger] dead@[k] == x;
                assert(x == target);
            }
            assert(dead_set_matches(dead@, d0));
        }
        let mut i: usize = 0;
        while i < n
            invariant
                self.wf(),
                0 <= i <= n,
                n == self@.len(),
                s == self@,
                target == comment_id as int,
                kept@.map_values(|c: Comment| c@) == surviving_prefix(s, target, i as int),
                dead_set_matches(dead@, dead_ids(s, target, i as int)),
            decreases n - i,
        {
            proof {
                assert(self@[i as int] == self.comments@[i as int]@);
            }
            let c = &self.comments[i];
            let own_dead = dead_list_contains(&dead, c.id);
            let parent_dead = match c.parent_id {
                Some(p) => dead_list_contains(&dead, p),
                None => false,
            };
            proof {
                let di = dead_ids(s, target, i as int);
                if own_dead {
                    assert(di.contains(s[i as int].id));
                }
                if parent_dead {
                    assert(s[i as int].parent_id matches Some(pp) && di.contains(pp));
                }
                if !own_dead && !parent_dead {
                    assert(!di.contains(s[i as int].id));
                    if s[i as int].parent_id is Some {
                        assert(!di.contains(s[i as int].parent_id.unwrap()));
                    }
                    assert(!is_dead(s[i as int], di));
                }
            }
            if own_dead || parent_dead {
                let ghost old_dead = dead@;
                dead.push(self.comments[i].id);
                proof {
                    let di = dead_ids(s, target, i as int);
                    assert(is_dead(s[i as int], di));
                    assert(dead_ids(s, target, i + 1) == di.insert(s[i as int].id));
                    assert(dead@ == old_dead.push(self.comments@[i as int].id));
                    assert forall|x: int| #[trigger] dead_ids(s, target, i + 1).contains(x) implies exists|
                        k: int,
                    | 0 <= k < dead@.len() && #[trigger] dead@[k] == x by {
                        if x == s[i as int].id {
                            assert(dead@[dead@.len() - 1] == x);
                        } else {
                            assert(di.contains(x));
                            let k = choose|k: int|
                                0 <= k < old_dead.len() && #[trigger] old_dead[k] == x;
                            assert(dead@[k] == x);
                        }
                    }
                    assert forall|x: int|
                        (exists|k: int| 0 <= k < dead@.len() && #[trigger] dead@[k] == x) implies #[trigger] dead_ids(
                        s,
                        target,
                        i + 1,
                    ).contains(x) by {
                        let k = choose|k: int| 0 <= k < dead@.len() && #[trigger] dead@[k] == x;
                        if k < old_dead.len() {
                            assert(old_dead[k] == x);
                            assert(di.contains(x));
                        } else {
                            assert(x == s[i as int].id);
                        }
                    }
                    assert(dead_set_matches(dead@, dead_ids(s, target, i + 1)));
                }
            } else {
                kept.push(self.comments[i].duplicate());
                proof {
                    assert(!is_dead(s[i as int], dead_ids(s, target, i as int)));
                    assert(kept@.map_values(|c: Comment| c@) =~= surviving_prefix(
                        s,
                        target,
                        i + 1,
                    ));
                    assert(dead_ids(s, target, i + 1) == dead_ids(s, target, i as int));
                }
            }
            i = i + 1;
        }
        self.comments = kept;
        proof {
            assert(self@ == cascade_deleted(s, target));
            lemma_alive_indices(s, target, n as int);
            let a = alive_indices(s, target, n as int);
            let out = self@;
            assert forall|k1: int, k2: int|
                0 <= k1 < k2 < out.len() implies #[trigger] out[k1].id != #[trigger] out[k2].id by {
                assert(out[k1] == s[a[k1]] && out[k2] == s[a[k2]]);
                assert(a[k1] < a[k2]);
            }
            assert forall|k1: int, k2: int|
                0 <= k1 <= k2 < out.len() implies out[k1].created_at <= out[k2].created_at by {
                if k1 < k2 {
                    assert(out[k1] == s[a[k1]] && out[k2] == s[a[k2]]);
                    assert(a[k1] < a[k2]);
                    assert(s[a[k1]].created_at <= s[a[k2]].created_at);
                }
            }
            assert forall|k: int|
                0 <= k < out.len() implies 0 < #[trigger] out[k].id < self.spec_next_id() by {
                assert(out[k] == s[a[k]]);
            }
            assert forall|k: int|
                0 <= k < out.len() implies (#[trigger] out[k].parent_id matches Some(p) ==> exists|
                j: int,
            |
                0 <= j < k && #[trigger] out[j].id == p) by {
                if out[k].parent_id is Some {
                    lemma_cascade_parents(s, target, k);
                    let k2 = choose|k2: int|
                        0 <= k2 < k && #[trigger] cascade_deleted(s, target)[k2].id == cascade_deleted(
                            s,
                            target,
                        )[k].parent_id.unwrap();
                    assert(out[k2].id == out[k].parent_id.unwrap());
                }
            }
        }
        Ok(())
    }

    /// One page of a post's comments, newest first, with the page count,
    /// the requested page, and the number of comments on the post.
    pub fn get_paginated_comments_by_post_id(&self, post_id: i32, page: u64, page_size: u64) -> (r:
        CustomResult<(Vec<Comment>, u64, u64, u64)>)
        requires
            self.wf(),
            page_size >= 1,
        ensures
            r is Ok,
            r matches Ok(out) ==> {
                let listing = post_comments(self@, post_id as int);
                let pg = spec_page(listing, eff_page(page as nat), page_size as nat);
                &&& out.0@.len() == pg.len()
                &&& forall|k: int| 0 <= k < pg.len() ==> #[trigger] out.0@[k]@ == pg[k]
                &&& out.1 == spec_num_pages(listing.len(), page_size as nat)
                &&& out.2 == page
                &&& out.3 == listing.len()
            },
    {
        let ghost pred = |c: CommentView| c.post_id == post_id as int;
        let n = self.comments.len();
        let mut matching: Vec<Comment> = Vec::new();
        let mut i: usize = 0;
        proof {
            assert(matching@.map_values(|c: Comment| c@) =~= self@.subrange(0, 0).filter(pred));
        }
        while i < n
            invariant
                self.wf(),
                0 <= i <= n,
                n == self@.len(),
                matching@.map_values(|c: Comment| c@) == self@.subrange(0, i as int).filter(pred),
                pred == (|c: CommentView| c.post_id == post_id as int),
            decreases n - i,
        {
            proof {
                assert(self@[i as int] == self.comments@[i as int]@);
            }
            let hit = self.comments[i].post_id == post_id;
            proof {
                reveal(Seq::filter);
                let p = self@.subrange(0, i + 1);
                assert(p.drop_last() =~= self@.subrange(0, i as int));
                assert(p.last() == self@[i as int]);
            }
            if hit {
                matching.push(self.comments[i].duplicate());
                proof {
                    assert(matching@.map_values(|c: Comment| c@) =~= self@.subrange(
                        0,
                        i as int,
                    ).filter(pred).push(self@[i as int]));
                }
            }
            i = i + 1;
        }
        proof {
            assert(self@.subrange(0, n as int) =~= self@);
        }
        let total = matching.len();
        let (start, end) = page_bounds(total, page, page_size);
        let ghost listing = post_comments(self@, post_id as int);
        proof {
            assert(listing.len() == total);
            assert(forall|k: int|
                0 <= k < listing.len() ==> #[trigger] listing[k] == matching@.map_values(
                    |c: Comment| c@,
                )[total - 1 - k]);
        }
        let mut items: Vec<Comment> = Vec::new();
        let mut j: usize = start;
        while j < end
            invariant
                start <= j <= end,
                end <= total,
                total == matching@.len(),
                listing.len() == total,
                forall|k: int|
                    0 <= k < listing.len() ==> #[trigger] listing[k] == matching@[total - 1 - k]@,
                items@.len() == j - start,
                forall|k: int| 0 <= k < items@.len() ==> #[trigger] items@[k]@ == listing[start + k],
            decreases end - j,
        {
            items.push(matching[total - 1 - j].duplicate());
            j = j + 1;
        }
        let pages = num_pages(total as u64, page_size);
        proof {
            let pg = spec_page(listing, eff_page(page as nat), page_size as nat);
            assert(pg =~= listing.subrange(start as int, end as int));
            assert(forall|k: int| 0 <= k < pg.len() ==> pg[k] == listing[start + k]);
        }
        Ok((items, pages, page, total as u64))
    }
}

/// The comments of one post, newest first.
pub open spec fn post_comments(s: Seq<CommentView>, post_id: int) -> Seq<CommentView> {
    s.filter(|c: CommentView| c.post_id == post_id).reverse()
}

/// Whether a list of dead ids carries exactly the ids of a dead set.
pub open spec fn dead_set_matches(l: Seq<i32>, d: Set<int>) -> bool {
    forall|x: int|
        #![trigger d.contains(x)]
        (d.contains(x) <==> exists|k: int| 0 <= k < l.len() && #[trigger] l[k] == x)
}

/// Whether `id` occurs in the list of dead ids.
fn dead_list_contains(l: &Vec<i32>, id: i32) -> (b: bool)
    ensures
        b == exists|k: int| 0 <= k < l@.len() && #[trigger] l@[k] == id as int,
{
    let n = l.len();
    let mut i: usize = 0;
    while i < n
        invariant
            0 <= i <= n,
            n == l@.len(),
            forall|k: int| 0 <= k < i ==> #[trigger] l@[k] != id,
        decreases n - i,
    {
        if l[i] == id {
            return true;
        }
        i = i + 1;
    }
    false
}

} // verus!
