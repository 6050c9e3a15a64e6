//! The post store: records ordered by creation time, with filtered and
//! paginated listing, partial updates, batch deletion, and a monotonic
//! view counter.

use vstd::prelude::*;

use crate::error::CustomError;
use crate::error::CustomResult;
use crate::handler::idl::CreatePostRequest;
use crate::handler::idl::PostInfo;
use crate::handler::idl::PostListRequest;
use crate::handler::idl::UpdatePostRequest;
use crate::pagination::eff_page;
use crate::pagination::num_pages;
use crate::pagination::page_bounds;
use crate::pagination::spec_num_pages;
use crate::pagination::spec_page;
use crate::seqx::lemma_filter_elementwise;
use crate::seqx::lemma_filter_pairwise;
use crate::strutil::contains_substr;
use crate::strutil::spec_contains_substr;

verus! {

/// A stored post record. `view_count` only ever grows; timestamps are Unix
/// seconds.
#[derive(Debug)]
pub struct Post {
    pub id: i32,
    pub title: String,
    pub content_markdown: String,
    pub category: String,
    pub author_id: i32,
    pub is_published: bool,
    pub view_count: u64,
    pub cover_url: Option<String>,
    pub created_at: i64,
    pub updated_at: i64,
}

/// The mathematical image of a post record.
pub struct PostView {
    pub id: int,
    pub title: Seq<char>,
    pub content_markdown: Seq<char>,
    pub category: Seq<char>,
    pub author_id: int,
    pub is_published: bool,
    pub view_count: int,
    pub cover_url: Option<Seq<char>>,
    pub created_at: int,
    pub updated_at: int,
}

impl View for Post {
    type V = PostView;

    open spec fn view(&self) -> PostView {
        PostView {
            id: self.id as int,
            title: self.title@,
            content_markdown: self.content_markdown@,
            category: self.category@,
            author_id: self.author_id as int,
            is_published: self.is_published,
            view_count: self.view_count as int,
            cover_url: match self.cover_url {
                Some(c) => Some(c@),
                None => None,
            },
            created_at: self.created_at as int,
            updated_at: self.updated_at as int,
        }
    }
}

impl Post {
    /// A field-for-field copy of the record.
    pub fn duplicate(&self) -> (r: Post)
        ensures
            r@ == self@,
    {
        Post {
            id: self.id,
            title: self.title.clone(),
            content_markdown: self.content_markdown.clone(),
            category: self.category.clone(),
            author_id: self.author_id,
            is_published: self.is_published,
            view_count: self.view_count,
            cover_url: match &self.cover_url {
                Some(c) => Some(c.clone()),
                None => None,
            },
            created_at: self.created_at,
            updated_at: self.updated_at,
        }
    }

    /// The record as the API returns it.
    pub fn to_post_info(&self) -> (r: PostInfo)
        ensures
            post_info_matches(r, self@),
    {
        PostInfo {
            id: self.id,
            title: self.title.clone(),
            content_markdown: self.content_markdown.clone(),
            category: self.category.clone(),
            author_id: self.author_id,
            is_published: self.is_published,
            view_count: self.view_count,
            cover_url: match &self.cover_url {
                Some(c) => Some(c.clone()),
                None => None,
            },
            created_at: self.created_at,
            updated_at: self.updated_at,
        }
    }
}

/// Whether an API payload matches a stored record, field for field.
pub open spec fn post_info_matches(i: PostInfo, p: PostView) -> bool {
    &&& i.id == p.id
    &&& i.title@ == p.title
    &&& i.content_markdown@ == p.content_markdown
    &&& i.category@ == p.category
    &&& i.author_id == p.author_id
    &&& i.is_published == p.is_published
    &&& i.view_count == p.view_count
    &&& (match i.cover_url {
        Some(c) => p.cover_url == Some(c@),
        None => p.cover_url is None,
    })
    &&& i.created_at == p.created_at
    &&& i.updated_at == p.updated_at
}

/// Whether some record in `s` has id `id`.
pub open spec fn contains_post_id(s: Seq<PostView>, id: int) -> bool {
    exists|i: int| 0 <= i < s.len() && #[trigger] s[i].id == id
}

/// The index of the record with id `id` (unique under `wf`).
pub open spec fn post_idx_of(s: Seq<PostView>, id: int) -> int {
    choose|i: int| 0 <= i < s.len() && #[trigger] s[i].id == id
}

/// Whether `id` occurs in a list of ids.
pub open spec fn post_id_in_list(ids: Seq<i32>, id: int) -> bool {
    exists|k: int| 0 <= k < ids.len() && #[trigger] ids[k] == id
}

/// The position at which a record created at `t` is inserted: after every
/// record created at or before `t` — late arrivals with equal timestamps
/// keep their arrival order.
pub open spec fn insert_pos(s: Seq<PostView>, t: int) -> int
    decreases s.len(),
{
    if s.len() == 0 {
        0
    } else if s.last().created_at <= t {
        s.len() as int
    } else {
        insert_pos(s.drop_last(), t)
    }
}

/// The listing with `p` inserted at its position.
pub open spec fn inserted(s: Seq<PostView>, p: PostView) -> Seq<PostView> {
    let pos = insert_pos(s, p.created_at);
    s.subrange(0, pos).push(p) + s.subrange(pos, s.len() as int)
}

/// `insert_pos` lies between 0 and the length, everything before it was
/// created at or before `t`, everything after it strictly later.
proof fn lemma_insert_pos(s: Seq<PostView>, t: int)
    requires
        forall|i: int, j: int| 0 <= i <= j < s.len() ==> s[i].created_at <= s[j].created_at,
    ensures
        0 <= insert_pos(s, t) <= s.len(),
        forall|k: int| 0 <= k < insert_pos(s, t) ==> s[k].created_at <= t,
        forall|k: int| insert_pos(s, t) <= k < s.len() ==> s[k].created_at > t,
    decreases s.len(),
{
    if s.len() == 0 {
    } else if s.last().created_at <= t {
        assert forall|k: int| 0 <= k < s.len() implies s[k].created_at <= t by {
            assert(s[k].created_at <= s[s.len() - 1].created_at);
        }
    } else {
        let d = s.drop_last();
        lemma_insert_pos(d, t);
        assert(forall|k: int| 0 <= k < d.len() ==> s[k] == d[k]);
    }
}

/// The filters of the post listing, in view form.
pub struct PostFilter {
    pub category: Option<Seq<char>>,
    pub query: Option<Seq<char>>,
    pub published_only: bool,
    pub author_id: Option<int>,
}

impl PostListRequest {
    /// The filter this request denotes; `published_only` defaults to true.
    pub open spec fn spec_filter(&self) -> PostFilter {
        PostFilter {
            category: match self.category {
                Some(c) => Some(c@),
                None => None,
            },
            query: match self.query {
                Some(q) => Some(q@),
                None => None,
            },
            published_only: match self.published_only {
                Some(b) => b,
                None => true,
            },
            author_id: match self.author_id {
                Some(a) => Some(a as int),
                None => None,
            },
        }
    }
}

/// Whether a record passes a filter: exact category, the query a substring
/// of the title or of the content, published when only published posts are
/// asked for, and the exact author. All conditions compose with "and".
pub open spec fn post_passes(p: PostView, f: PostFilter) -> bool {
    &&& (f.category matches Some(c) ==> p.category == c)
    &&& (f.query matches Some(q) ==> (spec_contains_substr(p.title, q) || spec_contains_substr(
        p.content_markdown,
        q,
    )))
    &&& (f.published_only ==> p.is_published)
    &&& (f.author_id matches Some(a) ==> p.author_id == a)
}

/// The listing a filtered query returns: the passing records, newest
/// first.
pub open spec fn filtered_listing(s: Seq<PostView>, f: PostFilter) -> Seq<PostView> {
    s.filter(|p: PostView| post_passes(p, f)).reverse()
}

/// The post store. `next_id` is the id the next created record receives.
pub struct PostRepository {
    pub posts: Vec<Post>,
    pub next_id: i32,
}

impl View for PostRepository {
    type V = Seq<PostView>;

    open spec fn view(&self) -> Seq<PostView> {
        self.posts@.map_values(|p: Post| p@)
    }
}

/// Two distinct rows of a well-formed store have distinct ids.
proof fn lemma_distinct_post_ids(repo: &PostRepository, a: int, b: int)
    requires
        repo.wf(),
        0 <= a < b < repo@.len(),
    ensures
        repo@[a].id != repo@[b].id,
{
}

impl PostRepository {
    /// The id the next created record receives.
    pub open spec fn spec_next_id(&self) -> int {
        self.next_id as int
    }

    /// Well-formedness: ids are positive, below `next_id` and unique, and
    /// the rows are ordered by creation time.
    pub open spec fn wf(&self) -> bool {
        &&& 1 <= self.next_id
        &&& forall|i: int| 0 <= i < self@.len() ==> 0 < #[trigger] self@[i].id < self.spec_next_id()
        &&& forall|i: int, j: int|
            0 <= i < j < self@.len() ==> #[trigger] self@[i].id != #[trigger] self@[j].id
        &&& forall|i: int, j: int|
            0 <= i <= j < self@.len() ==> self@[i].created_at <= self@[j].created_at
    }

    /// An empty store whose first record will get id 1.
    pub fn new() -> (r: PostRepository)
        ensures
            r.wf(),
            r@ == Seq::<PostView>::empty(),
            r.spec_next_id() == 1,
    {
        let r = PostRepository { posts: Vec::new(), next_id: 1 };
        proof {
            assert(r@ =~= Seq::<PostView>::empty());
        }
        r
    }

    /// Creates a post: `view_count` starts at 0, `is_published` defaults to
    /// false, both timestamps are `now`, and the record takes its place in
    /// creation-time order. Fails only when the id space is exhausted, and
    /// then leaves the store unchanged.
    pub fn create_post(&mut self, req: CreatePostRequest, author_id: i32, now: i64) -> (r:
        CustomResult<Post>)
        requires
            old(self).wf(),
        ensures
            final(self).wf(),
            r is Ok <==> old(self).spec_next_id() < i32::MAX,
            r matches Ok(m) ==> {
                &&& m@ == (PostView {
                    id: old(self).spec_next_id(),
                    title: req.title@,
                    content_markdown: req.content_markdown@,
                    category: req.category@,
                    author_id: author_id as int,
                    is_published: match req.is_published {
                        Some(b) => b,
                        None => false,
                    },
                    view_count: 0,
                    cover_url: match req.cover_url {
                        Some(c) => Some(c@),
                        None => None,
                    },
                    created_at: now as int,
                    updated_at: now as int,
                })
                &&& final(self)@ == inserted(old(self)@, m@)
                &&& final(self).spec_next_id() == old(self).spec_next_id() + 1
            },
            r matches Err(e) ==> final(self)@ == old(self)@ && final(self).spec_next_id() == old(
                self,
            ).spec_next_id() && e is InternalServerError,
    {
        if self.next_id == i32::MAX {
            return Err(
                CustomError::InternalServerError(String::from_str("the id space is exhausted")),
            );
        }
        let post = Post {
            id: self.next_id,
            title: req.title,
            content_markdown: req.content_markdown,
            category: req.category,
            author_id,
            is_published: match req.is_published {
                Some(b) => b,
                None => false,
            },
            view_count: 0,
            cover_url: req.cover_url,
            created_at: now,
            updated_at: now,
        };
        let copy = post.duplicate();
        let pos = self.find_insert_pos(now);
        self.posts.insert(pos, post);
        self.next_id = self.next_id + 1;
        proof {
            let s = old(self)@;
            let p = pos as int;
            lemma_insert_pos(s, now as int);
            assert(self@ =~= s.subrange(0, p).push(copy@) + s.subrange(p, s.len() as int));
            assert(forall|k: int|
                0 <= k < self@.len() ==> #[trigger] self@[k] == if k < p {
                    s[k]
                } else if k == p {
                    copy@
                } else {
                    s[k - 1]
                });
            assert forall|a: int, b: int|
                0 <= a < b < self@.len() implies #[trigger] self@[a].id != #[trigger] self@[b].id by {
                if a != p && b != p {
                    let a0 = if a < p {
                        a
                    } else {
                        a - 1
                    };
                    let b0 = if b < p {
                        b
                    } else {
                        b - 1
                    };
                    lemma_distinct_post_ids(old(self), a0, b0);
                }
            }
        }
        Ok(copy)
    }

    /// The position at which a record created at `t` is inserted.
    fn find_insert_pos(&self, t: i64) -> (pos: usize)
        requires
            self.wf(),
        ensures
            pos as int == insert_pos(self@, t as int),
            0 <= pos <= self@.len(),
    {
        let mut i = self.posts.len();
        proof {
            assert(self@.subrange(0, i as int) =~= self@);
        }
        while i > 0
            invariant
                self.wf(),
                0 <= i <= self@.len(),
                insert_pos(self@, t as int) == insert_pos(self@.subrange(0, i as int), t as int),
                forall|k: int| i <= k < self@.len() ==> self@[k].created_at > t as int,
            ensures
                i == 0 || self@[i - 1].created_at <= t as int,
                insert_pos(self@, t as int) == insert_pos(self@.subrange(0, i as int), t as int),
            decreases i,
        {
            proof {
                assert(self@[i - 1] == self.posts@[i - 1]@);
            }
            if self.posts[i - 1].created_at <= t {
                break ;
            }
            proof {
                let p = self@.subrange(0, i as int);
                assert(p.last() == self@[i - 1]);
                assert(p.drop_last() =~= self@.subrange(0, i - 1));
            }
            i = i - 1;
        }
        proof {
            let p = self@.subrange(0, i as int);
            if i == 0 {
                assert(p.len() == 0);
            } else {
                assert(p.last() == self@[i - 1]);
            }
            assert(insert_pos(p, t as int) == i as int);
        }
        i
    }

    /// Looks a post up by id. `Ok(Some(..))` exactly when the id exists.
    pub fn get_post_by_id(&self, post_id: i32) -> (r: CustomResult<Option<Post>>)
        requires
            self.wf(),
        ensures
            r is Ok,
            r matches Ok(opt) ==> {
                &&& opt is Some <==> contains_post_id(self@, post_id as int)
                &&& opt matches Some(p) ==> 0 <= post_idx_of(self@, post_id as int) < self@.len()
                    && p@ == self@[post_idx_of(self@, post_id as int)]
            },
    {
        match self.find_index_by_id(post_id) {
            Some(idx) => Ok(Some(self.posts[idx].duplicate())),
            None => Ok(None),
        }
    }

    /// Whether a post with this id exists.
    pub fn contains_post(&self, post_id: i32) -> (b: bool)
        requires
            self.wf(),
        ensures
            b == contains_post_id(self@, post_id as int),
    {
        self.find_index_by_id(post_id).is_some()
    }

    /// The position of the record with id `post_id`, if any.
    fn find_index_by_id(&self, post_id: i32) -> (r: Option<usize>)
        requires
            self.wf(),
        ensures
            r is Some <==> contains_post_id(self@, post_id as int),
            r matches Some(idx) ==> 0 <= idx < self@.len() && self@[idx as int].id == post_id as int
                && idx as int == post_idx_of(self@, post_id as int),
    {
        let n = self.posts.len();
        let mut i: usize = 0;
        while i < n
            invariant
                self.wf(),
                0 <= i <= n,
                n == self@.len(),
                forall|k: int| 0 <= k < i ==> #[trigger] self@[k].id != post_id as int,
            decreases n - i,
        {
            proof {
                assert(self@[i as int] == self.posts@[i as int]@);
            }
            if self.posts[i].id == post_id {
                proof {
                    assert(self@[i as int].id == post_id as int);
                    assert(contains_post_id(self@, post_id as int));
                    let w = post_idx_of(self@, post_id as int);
                    assert(0 <= w < self@.len() && self@[w].id == post_id as int);
                    if w < i as int {
                        lemma_distinct_post_ids(self, w, i as int);
                    } else if w > i as int {
                        lemma_distinct_post_ids(self, i as int, w);
                    }
                }
                return Some(i);
            }
            i = i + 1;
        }
        None
    }

    /// Applies a partial update to the post with id `post_id`: present
    /// fields overwrite, absent fields stay (a present cover replaces the
    /// cover, an absent one keeps it), and `updated_at` is refreshed.
    /// Fails with `NotFound` exactly when the id does not exist, leaving
    /// the store unchanged.
    pub fn update_post(&mut self, post_id: i32, req: UpdatePostRequest, now: i64) -> (r:
        CustomResult<Post>)
        requires
            old(self).wf(),
        ensures
            final(self).wf(),
            final(self).spec_next_id() == old(self).spec_next_id(),
            r is Ok <==> contains_post_id(old(self)@, post_id as int),
            r matches Ok(m) ==> {
                let idx = post_idx_of(old(self)@, post_id as int);
                &&& m@ == updated_post(
                    old(self)@[idx],
                    opt_view(req.title),
                    opt_view(req.content_markdown),
                    opt_view(req.category),
                    req.is_published,
                    opt_view(req.cover_url),
                    now as int,
                )
                &&& final(self)@ == old(self)@.update(idx, m@)
            },
            r matches Err(e) ==> final(self)@ == old(self)@ && e is NotFound,
    {
        let idx = match self.find_index_by_id(post_id) {
            Some(idx) => idx,
            None => {
                return Err(CustomError::NotFound(String::from_str("the post was not found")));
            },
        };
        let cur = &self.posts[idx];
        let new_post = Post {
            id: cur.id,
            title: match req.title {
                Some(t) => t,
                None => cur.title.clone(),
            },
            content_markdown: match req.content_markdown {
                Some(c) => c,
                None => cur.content_markdown.clone(),
            },
            category: match req.category {
                Some(c) => c,
                None => cur.category.clone(),
            },
            author_id: cur.author_id,
            is_published: match req.is_published {
                Some(b) => b,
                None => cur.is_published,
            },
            view_count: cur.view_count,
            cover_url: match req.cover_url {
                Some(c) => Some(c),
                None => match &cur.cover_url {
                    Some(c) => Some(c.clone()),
                    None => None,
                },
            },
            created_at: cur.created_at,
            updated_at: now,
        };
        let copy = new_post.duplicate();
        self.posts[idx] = new_post;
        proof {
            let s = old(self)@;
            let i = idx as int;
            assert(self@ =~= s.update(i, copy@));
            assert forall|a: int, b: int|
                0 <= a < b < self@.len() implies #[trigger] self@[a].id != #[trigger] self@[b].id by {
                if a != i && b != i {
                    lemma_distinct_post_ids(old(self), a, b);
                }
            }
        }
        Ok(copy)
    }

    /// Deletes the post with id `post_id`. Fails with `NotFound` exactly
    /// when the id does not exist; on failure the store is unchanged.
    pub fn delete_post(&mut self, post_id: i32) -> (r: CustomResult<()>)
        requires
            old(self).wf(),
        ensures
            final(self).wf(),
            final(self).spec_next_id() == old(self).spec_next_id(),
            r is Ok <==> contains_post_id(old(self)@, post_id as int),
            r is Ok ==> final(self)@ == old(self)@.remove(post_idx_of(old(self)@, post_id as int)),
            r matches Err(e) ==> final(self)@ == old(self)@ && e is NotFound,
    {
        let idx = match self.find_index_by_id(post_id) {
            Some(idx) => idx,
            None => {
                return Err(
                    CustomError::NotFound(
                        String::from_str("the post was not found or is already deleted"),
                    ),
                );
            },
        };
        self.posts.remove(idx);
        proof {
            let s = old(self)@;
            let i = idx as int;
            assert(self@ =~= s.remove(i));
            assert(forall|k: int|
                0 <= k < self@.len() ==> #[trigger] self@[k] == if k < i {
                    s[k]
                } else {
                    s[k + 1]
                });
        }
        Ok(())
    }

    /// Deletes every post whose id is in `post_ids` and returns how many
    /// records were removed; ids that do not exist are skipped.
    pub fn delete_posts_by_ids(&mut self, post_ids: Vec<i32>) -> (r: CustomResult<u64>)
        requires
            old(self).wf(),
        ensures
            final(self).wf(),
            final(self).spec_next_id() == old(self).spec_next_id(),
            r is Ok,
            final(self)@ == old(self)@.filter(
                |p: PostView| !post_id_in_list(post_ids@, p.id),
            ),
            r matches Ok(n) ==> n == old(self)@.len() - final(self)@.len(),
    {
        let ghost pred = |p: PostView| !post_id_in_list(post_ids@, p.id);
        let old_len = self.posts.len();
        let mut kept: Vec<Post> = Vec::new();
        let mut i: usize = 0;
        proof {
            assert(kept@.map_values(|p: Post| p@) =~= self@.subrange(0, 0).filter(pred));
        }
        while i < old_len
            invariant
                self.wf(),
                0 <= i <= old_len,
                old_len == self@.len(),
                kept@.map_values(|p: Post| p@) == self@.subrange(0, i as int).filter(pred),
                pred == (|p: PostView| !post_id_in_list(post_ids@, p.id)),
            decreases old_len - i,
        {
            proof {
                assert(self@[i as int] == self.posts@[i as int]@);
            }
            let keep = !post_ids_contain(&post_ids, self.posts[i].id);
            proof {
                reveal(Seq::filter);
                let p = self@.subrange(0, i + 1);
                assert(p.drop_last() =~= self@.subrange(0, i as int));
                assert(p.last() == self@[i as int]);
            }
            if keep {
                kept.push(self.posts[i].duplicate());
                proof {
                    assert(kept@.map_values(|p: Post| p@) =~= self@.subrange(0, i as int).filter(
                        pred,
                    ).push(self@[i as int]));
                }
            }
            i = i + 1;
        }
        proof {
            assert(self@.subrange(0, old_len as int) =~= self@);
        }
        let new_len = kept.len();
        self.posts = kept;
        proof {
            let s = old(self)@;
            lemma_filter_pairwise(s, pred, |a: PostView, b: PostView| a.id != b.id);
            lemma_filter_pairwise(
                s,
                pred,
                |a: PostView, b: PostView| a.created_at <= b.created_at,
            );
            lemma_filter_elementwise(s, pred, |p: PostView| 0 < p.id < old(self).spec_next_id());
            assert forall|a: int, b: int|
                0 <= a < b < self@.len() implies #[trigger] self@[a].id != #[trigger] self@[b].id by {
                assert((|a: PostView, b: PostView| a.id != b.id)(self@[a], self@[b]));
            }
            assert forall|a: int, b: int|
                0 <= a <= b < self@.len() implies self@[a].created_at <= self@[b].created_at by {
                if a < b {
                    assert((|a: PostView, b: PostView| a.created_at <= b.created_at)(
                        self@[a],
                        self@[b],
                    ));
                }
            }
            assert forall|k: int|
                0 <= k < self@.len() implies 0 < #[trigger] self@[k].id < self.spec_next_id() by {
                assert((|p: PostView| 0 < p.id < old(self).spec_next_id())(self@[k]));
            }
        }
        Ok((old_len - new_len) as u64)
    }

    /// Adds one view to the post with id `post_id` (saturating at the
    /// counter's maximum); every other field stays. Fails with `NotFound`
    /// exactly when the id does not exist, leaving the store unchanged.
    pub fn increment_view_count(&mut self, post_id: i32) -> (r: CustomResult<()>)
        requires
            old(self).wf(),
        ensures
            final(self).wf(),
            final(self).spec_next_id() == old(self).spec_next_id(),
            r is Ok <==> contains_post_id(old(self)@, post_id as int),
            r is Ok ==> {
                let idx = post_idx_of(old(self)@, post_id as int);
                let p = old(self)@[idx];
                final(self)@ == old(self)@.update(
                    idx,
                    PostView {
                        view_count: if p.view_count < u64::MAX {
                            p.view_count + 1
                        } else {
                            p.view_count
                        },
                        ..p
                    },
                )
            },
            r matches Err(e) ==> final(self)@ == old(self)@ && e is NotFound,
    {
        let idx = match self.find_index_by_id(post_id) {
            Some(idx) => idx,
            None => {
                return Err(CustomError::NotFound(String::from_str("the post was not found")));
            },
        };
        let cur = &self.posts[idx];
        let new_post = Post {
            id: cur.id,
            title: cur.title.clone(),
            content_markdown: cur.content_markdown.clone(),
            category: cur.category.clone(),
            author_id: cur.author_id,
            is_published: cur.is_published,
            view_count: if cur.view_count < u64::MAX {
                cur.view_count + 1
            } else {
                cur.view_count
            },
            cover_url: match &cur.cover_url {
                Some(c) => Some(c.clone()),
                None => None,
            },
            created_at: cur.created_at,
            updated_at: cur.updated_at,
        };
        self.posts[idx] = new_post;
        proof {
            let s = old(self)@;
            let i = idx as int;
            assert(self@ =~= s.update(
                i,
                PostView {
                    view_count: if s[i].view_count < u64::MAX {
                        s[i].view_count + 1
                    } else {
                        s[i].view_count
                    },
                    ..s[i]
                },
            ));
            assert forall|a: int, b: int|
                0 <= a < b < self@.len() implies #[trigger] self@[a].id != #[trigger] self@[b].id by {
                if a != i && b != i {
                    lemma_distinct_post_ids(old(self), a, b);
                }
            }
        }
        Ok(())
    }

    /// One page of the filtered listing, newest first, with the page
    /// count, the requested page, and the number of records that pass the
    /// filter. A requested page size of zero fails with `BadRequest`.
    pub fn get_paginated_posts(&self, req: PostListRequest) -> (r: CustomResult<
        (Vec<PostInfo>, u64, u64, u64),
    >)
        requires
            self.wf(),
        ensures
            r is Err <==> req.limit == Some(0u64),
            r matches Err(e) ==> e is BadRequest,
            r matches Ok(out) ==> {
                let listing = filtered_listing(self@, req.spec_filter());
                let page = match req.page {
                    Some(p) => p as nat,
                    None => 1,
                };
                let size = match req.limit {
                    Some(l) => l as nat,
                    None => 10,
                };
                let pg = spec_page(listing, eff_page(page), size);
                &&& out.0@.len() == pg.len()
                &&& forall|k: int|
                    0 <= k < pg.len() ==> post_info_matches(#[trigger] out.0@[k], pg[k])
                &&& out.1 == spec_num_pages(listing.len(), size)
                &&& out.2 == page
                &&& out.3 == listing.len()
            },
    {
        let page: u64 = match req.page {
            Some(p) => p,
            None => 1,
        };
        let size: u64 = match req.limit {
            Some(l) => {
                if l == 0 {
                    return Err(
                        CustomError::BadRequest(
                            String::from_str("the page size must be at least 1"),
                        ),
                    );
                }
                l
            },
            None => 10,
        };
        let ghost f = req.spec_filter();
        let ghost pred = |p: PostView| post_passes(p, f);
        let n = self.posts.len();
        let mut matching: Vec<Post> = Vec::new();
        let mut i: usize = 0;
        proof {
            assert(matching@.map_values(|p: Post| p@) =~= self@.subrange(0, 0).filter(pred));
        }
        while i < n
            invariant
                self.wf(),
                0 <= i <= n,
                n == self@.len(),
                matching@.map_values(|p: Post| p@) == self@.subrange(0, i as int).filter(pred),
                pred == (|p: PostView| post_passes(p, f)),
                f == req.spec_filter(),
            decreases n - i,
        {
            proof {
                assert(self@[i as int] == self.posts@[i as int]@);
            }
            let passes = post_passes_exec(&self.posts[i], &req);
            proof {
                reveal(Seq::filter);
                let p = self@.subrange(0, i + 1);
                assert(p.drop_last() =~= self@.subrange(0, i as int));
                assert(p.last() == self@[i as int]);
            }
            if passes {
                matching.push(self.posts[i].duplicate());
                proof {
                    assert(matching@.map_values(|p: Post| p@) =~= self@.subrange(
                        0,
                        i as int,
                    ).filter(pred).push(self@[i as int]));
                }
            }
            i = i + 1;
        }
        proof {
            assert(self@.subrange(0, n as int) =~= self@);
        }
        let total = matching.len();
        let (start, end) = page_bounds(total, page, size);
        let ghost listing = filtered_listing(self@, f);
        proof {
            assert(listing.len() == total);
            assert(forall|k: int|
                0 <= k < listing.len() ==> #[trigger] listing[k] == matching@.map_values(
                    |p: Post| p@,
                )[total - 1 - k]);
        }
        let mut items: Vec<PostInfo> = Vec::new();
        let mut j: usize = start;
        while j < end
            invariant
                start <= j <= end,
                end <= total,
                total == matching@.len(),
                listing.len() == total,
                forall|k: int|
                    0 <= k < listing.len() ==> #[trigger] listing[k] == matching@[total - 1 - k]@,
                items@.len() == j - start,
                forall|k: int|
                    0 <= k < items@.len() ==> post_info_matches(
                        #[trigger] items@[k],
                        listing[start + k],
                    ),
            decreases end - j,
        {
            items.push(matching[total - 1 - j].to_post_info());
            j = j + 1;
        }
        let pages = num_pages(total as u64, size);
        proof {
            let pg = spec_page(listing, eff_page(page as nat), size as nat);
            assert(pg =~= listing.subrange(start as int, end as int));
            assert(forall|k: int| 0 <= k < pg.len() ==> pg[k] == listing[start + k]);
        }
        Ok((items, pages, page, total as u64))
    }
}

/// Whether a post passes the filters of a listing request.
fn post_passes_exec(p: &Post, req: &PostListRequest) -> (b: bool)
    ensures
        b == post_passes(p@, req.spec_filter()),
{
    if let Some(c) = &req.category {
        if !(p.category == *c) {
            return false;
        }
    }
    if let Some(q) = &req.query {
        if !contains_substr(p.title.as_str(), q.as_str()) && !contains_substr(
            p.content_markdown.as_str(),
            q.as_str(),
        ) {
            return false;
        }
    }
    let published_only = match req.published_only {
        Some(b) => b,
        None => true,
    };
    if published_only && !p.is_published {
        return false;
    }
    if let Some(a) = req.author_id {
        if p.author_id != a {
            return false;
        }
    }
    true
}

/// The view of an optional string.
pub open spec fn opt_view(o: Option<String>) -> Option<Seq<char>> {
    match o {
        Some(s) => Some(s@),
        None => None,
    }
}

/// The record that a partial update produces: present fields overwrite,
/// absent fields stay, `updated_at` becomes `now`.
pub open spec fn updated_post(
    p: PostView,
    title: Option<Seq<char>>,
    content: Option<Seq<char>>,
    category: Option<Seq<char>>,
    is_published: Option<bool>,
    cover_url: Option<Seq<char>>,
    now: int,
) -> PostView {
    PostView {
        id: p.id,
        title: match title {
            Some(t) => t,
            None => p.title,
        },
        content_markdown: match content {
            Some(c) => c,
            None => p.content_markdown,
        },
        category: match category {
            Some(c) => c,
            None => p.category,
        },
        author_id: p.author_id,
        is_published: match is_published {
            Some(b) => b,
            None => p.is_published,
        },
        view_count: p.view_count,
        cover_url: match cover_url {
            Some(c) => Some(c),
            None => p.cover_url,
        },
        created_at: p.created_at,
        updated_at: now,
    }
}

/// One bump of the view counter of the post with id `id`, as
/// `increment_view_count` performs it.
pub open spec fn spec_bumped(s: Seq<PostView>, id: int) -> Seq<PostView> {
    let idx = post_idx_of(s, id);
    let p = s[idx];
    s.update(
        idx,
        PostView {
            view_count: if p.view_count < u64::MAX {
                p.view_count + 1
            } else {
                p.view_count
            },
            ..p
        },
    )
}

/// `k` bumps of the view counter of the post with id `id`.
pub open spec fn spec_bumped_k(s: Seq<PostView>, id: int, k: nat) -> Seq<PostView>
    decreases k,
{
    if k == 0 {
        s
    } else {
        spec_bumped(spec_bumped_k(s, id, (k - 1) as nat), id)
    }
}

/// View counts are monotonic and exact: `k` view-count increments on one
/// post raise its counter by exactly `k` (while the counter stays below
/// its ceiling) and never touch any other field or any other post.
pub proof fn lemma_view_count_adds_k(s: Seq<PostView>, id: int, k: nat)
    requires
        forall|i: int, j: int|
            0 <= i < j < s.len() ==> #[trigger] s[i].id != #[trigger] s[j].id,
        contains_post_id(s, id),
        s[post_idx_of(s, id)].view_count + k <= u64::MAX,
        s[post_idx_of(s, id)].view_count >= 0,
    ensures
        spec_bumped_k(s, id, k).len() == s.len(),
        forall|j: int|
            0 <= j < s.len() && j != post_idx_of(s, id) ==> #[trigger] spec_bumped_k(s, id, k)[j]
                == s[j],
        spec_bumped_k(s, id, k)[post_idx_of(s, id)] == (PostView {
            view_count: s[post_idx_of(s, id)].view_count + k,
            ..s[post_idx_of(s, id)]
        }),
    decreases k,
{
    let idx = post_idx_of(s, id);
    if k == 0 {
        assert(spec_bumped_k(s, id, 0)[idx] =~= (PostView {
            view_count: s[idx].view_count + 0,
            ..s[idx]
        }));
    } else {
        lemma_view_count_adds_k(s, id, (k - 1) as nat);
        let prev = spec_bumped_k(s, id, (k - 1) as nat);
        assert(prev[idx].id == s[idx].id);
        assert(0 <= idx < prev.len() && prev[idx].id == id);
        assert(contains_post_id(prev, id));
        let w = post_idx_of(prev, id);
        assert(0 <= w < prev.len() && prev[w].id == id);
        assert(w == idx) by {
            if w != idx {
                assert(prev[w] == s[w]);
                assert(s[w].id == id && s[idx].id == id);
                if w < idx {
                    assert(s[w].id != s[idx].id);
                } else {
                    assert(s[idx].id != s[w].id);
                }
            }
        }
        assert(prev[idx].view_count == s[idx].view_count + (k - 1));
        assert(prev[idx].view_count < u64::MAX);
        assert(spec_bumped_k(s, id, k) == spec_bumped(prev, id));
    }
}

/// Whether `id` occurs in a list of ids.
fn post_ids_contain(ids: &Vec<i32>, id: i32) -> (b: bool)
    ensures
        b == post_id_in_list(ids@, id as int),
{
    let n = ids.len();
    let mut i: usize = 0;
    while i < n
        invariant
            0 <= i <= n,
            n == ids@.len(),
            forall|k: int| 0 <= k < i ==> #[trigger] ids@[k] != id,
        decreases n - i,
    {
        if ids[i] == id {
            return true;
        }
        i = i + 1;
    }
    false
}

} // verus!
