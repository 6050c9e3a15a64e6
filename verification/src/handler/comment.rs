//! Comment handlers: creation under a post, reading, author-or-admin
//! guarded editing, deletion open to the comment's author, the post's
//! author and administrators, and the per-post listing.

use vstd::prelude::*;

use crate::database::comment::cascade_deleted;
use crate::database::comment::comment_idx_of;
use crate::database::comment::comment_info_matches;
use crate::database::comment::contains_comment_id;
use crate::database::comment::post_comments;
use crate::database::comment::CommentRepository;
use crate::database::comment::CommentView;
use crate::database::post::contains_post_id;
use crate::database::post::post_idx_of;
use crate::database::post::PostRepository;
use crate::error::CustomError;
use crate::error::CustomResult;
use crate::handler::auth::Claims;
use crate::handler::idl::valid_comment_content;
use crate::handler::idl::BaseResponse;
use crate::handler::idl::CommentInfo;
use crate::handler::idl::CommentListRequest;
use crate::handler::idl::CommentListResponse;
use crate::handler::idl::CreateCommentRequest;
use crate::handler::idl::IdResponse;
use crate::handler::idl::UpdateCommentRequest;
use crate::numstr::parse_user_id;
use crate::numstr::spec_parse_id;
use crate::pagination::eff_page;
use crate::pagination::spec_num_pages;
use crate::pagination::spec_page;

verus! {

/// Whether the caller may edit the comment: its author, or an
/// administrator.
pub open spec fn may_edit_comment(c: CommentView, operator_id: int, role: Seq<char>) -> bool {
    c.user_id == operator_id || role == "admin"@
}

/// Whether the caller may delete the comment: its author, the author of
/// the post it stands under, or an administrator.
pub open spec fn may_delete_comment(
    c: CommentView,
    post_author: int,
    operator_id: int,
    role: Seq<char>,
) -> bool {
    c.user_id == operator_id || post_author == operator_id || role == "admin"@
}

/// Creates a comment for the authenticated caller: the payload must
/// validate and a reply's parent must exist.
pub fn create_comment(
    claims: &Claims,
    repo: &mut CommentRepository,
    req: CreateCommentRequest,
    now: i64,
) -> (r: CustomResult<IdResponse>)
    requires
        old(repo).wf(),
    ensures
        final(repo).wf(),
        r is Err ==> final(repo)@ == old(repo)@,
        !valid_comment_content(req.content@) ==> (r matches Err(e) && e is ValidationError),
        valid_comment_content(req.content@) && spec_parse_id(claims.sub@) is None ==> (
        r matches Err(e) && e is Unauthorized),
        r matches Ok(resp) ==> {
            &&& valid_comment_content(req.content@)
            &&& spec_parse_id(claims.sub@) is Some
            &&& (req.parent_id matches Some(p) ==> contains_comment_id(old(repo)@, p as int))
            &&& resp.success == true
            &&& resp.id == old(repo).spec_next_id()
            &&& final(repo)@.len() == old(repo)@.len() + 1
            &&& contains_comment_id(final(repo)@, old(repo).spec_next_id())
            &&& {
                let c = final(repo)@[comment_idx_of(final(repo)@, old(repo).spec_next_id())];
                &&& c.content == req.content@
                &&& c.post_id == req.post_id as int
                &&& c.user_id == spec_parse_id(claims.sub@).unwrap()
                &&& (match req.parent_id {
                    Some(p) => c.parent_id == Some(p as int),
                    None => c.parent_id is None,
                })
            }
        },
        r matches Err(e) ==> (e is ValidationError || e is Unauthorized || e is NotFound
            || e is InternalServerError),
        r is Ok <==> (valid_comment_content(req.content@) && spec_parse_id(claims.sub@) is Some
            && (req.parent_id matches Some(p) ==> contains_comment_id(old(repo)@, p as int)) && old(
            repo,
        ).spec_next_id() < i32::MAX),
        r matches Err(e) ==> (e is NotFound ==> req.parent_id is Some),
        r matches Err(e) ==> (e is InternalServerError ==> old(repo).spec_next_id() == i32::MAX),
{
    if let Err(e) = req.validate() {
        return Err(e);
    }
    let user_id = match parse_user_id(claims.sub.as_str()) {
        Some(id) => id,
        None => {
            return Err(
                CustomError::Unauthorized(String::from_str("the token's user id is invalid")),
            );
        },
    };
    let comment = match repo.create_comment(req, user_id, now) {
        Ok(c) => c,
        Err(e) => {
            return Err(e);
        },
    };
    proof {
        let s2 = final(repo)@;
        let sold = old(repo)@;
        crate::database::comment::lemma_comment_insert_pos(sold, comment@.created_at);
        let p = crate::database::comment::comment_insert_pos(sold, comment@.created_at);
        assert(s2 == crate::database::comment::comment_inserted(sold, comment@));
        assert(s2[p] == comment@);
        assert(contains_comment_id(s2, comment@.id));
        let w = comment_idx_of(s2, comment@.id);
        assert(0 <= w < s2.len() && s2[w].id == comment@.id);
        assert(w == p) by {
            if w < p {
                assert(s2[w].id != s2[p].id);
            } else if w > p {
                assert(s2[p].id != s2[w].id);
            }
        }
        assert(s2[w] == comment@);
    }
    Ok(
        IdResponse {
            success: true,
            id: comment.id,
            message: Some(String::from_str("the comment was created")),
        },
    )
}

/// Returns one comment, open to anonymous callers.
pub fn get_comment_by_id(repo: &CommentRepository, comment_id: i32) -> (r: CustomResult<
    CommentInfo,
>)
    requires
        repo.wf(),
    ensures
        r is Ok <==> contains_comment_id(repo@, comment_id as int),
        r matches Ok(info) ==> comment_info_matches(
            info,
            repo@[comment_idx_of(repo@, comment_id as int)],
        ),
        r matches Err(e) ==> e is NotFound,
{
    match repo.get_comment_by_id(comment_id) {
        Ok(Some(c)) => Ok(c.to_comment_info()),
        Ok(None) => Err(CustomError::NotFound(String::from_str("the comment was not found"))),
        Err(e) => Err(e),
    }
}

/// Edits a comment's content: only its author or an administrator may.
pub fn update_comment(
    claims: &Claims,
    repo: &mut CommentRepository,
    comment_id: i32,
    req: UpdateCommentRequest,
) -> (r: CustomResult<BaseResponse>)
    requires
        old(repo).wf(),
    ensures
        final(repo).wf(),
        r is Err ==> final(repo)@ == old(repo)@,
        !valid_comment_content(req.content@) ==> (r matches Err(e) && e is ValidationError),
        valid_comment_content(req.content@) && !contains_comment_id(old(repo)@, comment_id as int)
            ==> (r matches Err(e) && e is NotFound),
        contains_comment_id(old(repo)@, comment_id as int) && valid_comment_content(req.content@)
            && spec_parse_id(claims.sub@) is Some && !may_edit_comment(
            old(repo)@[comment_idx_of(old(repo)@, comment_id as int)],
            spec_parse_id(claims.sub@).unwrap(),
            claims.role@,
        ) ==> (r matches Err(e) && e is Forbidden),
        r is Ok <==> (valid_comment_content(req.content@) && contains_comment_id(
            old(repo)@,
            comment_id as int,
        ) && spec_parse_id(claims.sub@) is Some && may_edit_comment(
            old(repo)@[comment_idx_of(old(repo)@, comment_id as int)],
            spec_parse_id(claims.sub@).unwrap(),
            claims.role@,
        )),
        r matches Ok(resp) ==> {
            let idx = comment_idx_of(old(repo)@, comment_id as int);
            &&& resp.success == true
            &&& final(repo)@ == old(repo)@.update(
                idx,
                CommentView { content: req.content@, ..old(repo)@[idx] },
            )
        },
        r matches Err(e) ==> (e is ValidationError || e is NotFound || e is Unauthorized
            || e is Forbidden),
{
    if let Err(e) = req.validate() {
        return Err(e);
    }
    let existing = match repo.get_comment_by_id(comment_id) {
        Ok(Some(c)) => c,
        Ok(None) => {
            return Err(CustomError::NotFound(String::from_str("the comment was not found")));
        },
        Err(e) => {
            return Err(e);
        },
    };
    let operator_id = match parse_user_id(claims.sub.as_str()) {
        Some(id) => id,
        None => {
            return Err(
                CustomError::Unauthorized(String::from_str("the token's user id is invalid")),
            );
        },
    };
    if existing.user_id != operator_id && !claims.is_admin() {
        return Err(
            CustomError::Forbidden(String::from_str("no permission to update this comment")),
        );
    }
    match repo.update_comment(comment_id, req) {
        Ok(_) => Ok(
            BaseResponse {
                success: true,
                message: Some(String::from_str("the comment was updated")),
            },
        ),
        Err(e) => Err(e),
    }
}

/// Deletes a comment and its reply subtree: allowed to the comment's
/// author, the author of the post it stands under, and administrators.
pub fn delete_comment(
    claims: &Claims,
    repo: &mut CommentRepository,
    posts: &PostRepository,
    comment_id: i32,
) -> (r: CustomResult<BaseResponse>)
    requires
        old(repo).wf(),
        posts.wf(),
    ensures
        final(repo).wf(),
        r is Err ==> final(repo)@ == old(repo)@,
        !contains_comment_id(old(repo)@, comment_id as int) ==> (r matches Err(e) && e is NotFound),
        r is Ok <==> ({
            let idx = comment_idx_of(old(repo)@, comment_id as int);
            let c = old(repo)@[idx];
            &&& contains_comment_id(old(repo)@, comment_id as int)
            &&& spec_parse_id(claims.sub@) is Some
            &&& contains_post_id(posts@, c.post_id)
            &&& may_delete_comment(
                c,
                posts@[post_idx_of(posts@, c.post_id)].author_id,
                spec_parse_id(claims.sub@).unwrap(),
                claims.role@,
            )
        }),
        r matches Ok(resp) ==> {
            &&& resp.success == true
            &&& final(repo)@ == cascade_deleted(old(repo)@, comment_id as int)
        },
        contains_comment_id(old(repo)@, comment_id as int) && spec_parse_id(claims.sub@) is Some
            && contains_post_id(
            posts@,
            old(repo)@[comment_idx_of(old(repo)@, comment_id as int)].post_id,
        ) && !may_delete_comment(
            old(repo)@[comment_idx_of(old(repo)@, comment_id as int)],
            posts@[post_idx_of(
                posts@,
                old(repo)@[comment_idx_of(old(repo)@, comment_id as int)].post_id,
            )].author_id,
            spec_parse_id(claims.sub@).unwrap(),
            claims.role@,
        ) ==> (r matches Err(e) && e is Forbidden),
        r matches Err(e) ==> (e is NotFound || e is Unauthorized || e is Forbidden),
{
    let existing = match repo.get_comment_by_id(comment_id) {
        Ok(Some(c)) => c,
        Ok(None) => {
            return Err(CustomError::NotFound(String::from_str("the comment was not found")));
        },
        Err(e) => {
            return Err(e);
        },
    };
    let operator_id = match parse_user_id(claims.sub.as_str()) {
        Some(id) => id,
        None => {
            return Err(
                CustomError::Unauthorized(String::from_str("the token's user id is invalid")),
            );
        },
    };
    let post = match posts.get_post_by_id(existing.post_id) {
        Ok(Some(p)) => p,
        Ok(None) => {
            return Err(
                CustomError::NotFound(String::from_str("the comment's post was not found")),
            );
        },
        Err(e) => {
            return Err(e);
        },
    };
    if existing.user_id != operator_id && post.author_id != operator_id && !claims.is_admin() {
        return Err(
            CustomError::Forbidden(String::from_str("no permission to delete this comment")),
        );
    }
    match repo.delete_comment(comment_id) {
        Ok(()) => Ok(
            BaseResponse {
                success: true,
                message: Some(String::from_str("the comment was deleted")),
            },
        ),
        Err(e) => Err(e),
    }
}

/// The paginated comment listing of one post, newest first, open to
/// anonymous callers; the post must exist. A requested page size of zero
/// fails with `BadRequest`.
pub fn get_comments_by_post_id(
    repo: &CommentRepository,
    posts: &PostRepository,
    post_id: i32,
    req: CommentListRequest,
) -> (r: CustomResult<CommentListResponse>)
    requires
        repo.wf(),
        posts.wf(),
    ensures
        r is Ok <==> (contains_post_id(posts@, post_id as int) && req.limit != Some(0u64)),
        req.limit == Some(0u64) && contains_post_id(posts@, post_id as int) ==> (r matches Err(e)
            && e is BadRequest),
        !contains_post_id(posts@, post_id as int) ==> (r matches Err(e) && e is NotFound),
        r matches Ok(resp) ==> {
            let listing = post_comments(repo@, post_id as int);
            let page = match req.page {
                Some(p) => p as nat,
                None => 1,
            };
            let size = match req.limit {
                Some(l) => l as nat,
                None => 10,
            };
            let pg = spec_page(listing, eff_page(page), size);
            &&& contains_post_id(posts@, post_id as int)
            &&& resp.success == true
            &&& resp.comments@.len() == pg.len()
            &&& forall|k: int|
                0 <= k < pg.len() ==> comment_info_matches(#[trigger] resp.comments@[k], pg[k])
            &&& resp.total_pages == spec_num_pages(listing.len(), size)
            &&& resp.current_page == page
            &&& resp.total_comments == listing.len()
        },
        r matches Err(e) ==> (e is NotFound || e is BadRequest),
{
    let page: u64 = match req.page {
        Some(p) => p,
        None => 1,
    };
    let limit: u64 = match req.limit {
        Some(l) => l,
        None => 10,
    };
    match posts.get_post_by_id(post_id) {
        Ok(Some(_)) => {},
        Ok(None) => {
            return Err(CustomError::NotFound(String::from_str("the post does not exist")));
        },
        Err(e) => {
            return Err(e);
        },
    }
    if limit == 0 {
        return Err(CustomError::BadRequest(String::from_str("the page size must be at least 1")));
    }
    match repo.get_paginated_comments_by_post_id(post_id, page, limit) {
        Ok((comments, total_pages, current_page, total_comments)) => {
            let n = comments.len();
            let mut infos: Vec<CommentInfo> = Vec::new();
            let mut i: usize = 0;
            while i < n
                invariant
                    0 <= i <= n,
                    n == comments@.len(),
                    infos@.len() == i,
                    forall|k: int|
                        0 <= k < i ==> comment_info_matches(#[trigger] infos@[k], comments@[k]@),
                decreases n - i,
            {
                infos.push(comments[i].to_comment_info());
                i = i + 1;
            }
            Ok(
                CommentListResponse {
                    success: true,
                    comments: infos,
                    total_pages,
                    current_page,
                    total_comments,
                    message: None,
                },
            )
        },
        Err(e) => Err(e),
    }
}

} // verus!
