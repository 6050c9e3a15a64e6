//! Post handlers: creation, reading (with the view-count side effect),
//! author-or-admin guarded updates and deletion, and the public filtered
//! listing.

use vstd::prelude::*;

use crate::database::post::contains_post_id;
use crate::database::post::filtered_listing;
use crate::database::post::opt_view;
use crate::database::post::post_idx_of;
use crate::database::post::post_info_matches;
use crate::database::post::inserted;
use crate::database::post::updated_post;
use crate::database::post::PostFilter;
use crate::database::post::PostRepository;
use crate::database::post::PostView;
use crate::error::CustomError;
use crate::error::CustomResult;
use crate::handler::auth::Claims;
use crate::handler::idl::valid_category;
use crate::handler::idl::valid_post_content;
use crate::handler::idl::valid_title;
use crate::handler::idl::BaseResponse;
use crate::handler::idl::CreatePostRequest;
use crate::handler::idl::IdResponse;
use crate::handler::idl::PostInfo;
use crate::handler::idl::PostListRequest;
use crate::handler::idl::PostListResponse;
use crate::handler::idl::UpdatePostRequest;
use crate::numstr::parse_user_id;
use crate::numstr::spec_parse_id;
use crate::pagination::eff_page;
use crate::pagination::spec_num_pages;
use crate::pagination::spec_page;
use crate::database::post::Post;

verus! {

/// Converts a post record into its API payload.
pub fn convert_post_model_to_post_info(model: Post) -> (r: PostInfo)
    ensures
        post_info_matches(r, model@),
{
    model.to_post_info()
}

/// Whether the caller may modify the post at `idx`: its author, or an
/// administrator.
pub open spec fn may_modify_post(p: PostView, operator_id: int, role: Seq<char>) -> bool {
    p.author_id == operator_id || role == "admin"@
}

/// Creates a post for the authenticated caller: the payload must
/// validate, the token's subject id becomes the author.
pub fn create_post(
    claims: &Claims,
    repo: &mut PostRepository,
    req: CreatePostRequest,
    now: i64,
) -> (r: CustomResult<IdResponse>)
    requires
        old(repo).wf(),
    ensures
        final(repo).wf(),
        r is Err ==> final(repo)@ == old(repo)@,
        !(valid_title(req.title@) && valid_post_content(req.content_markdown@) && valid_category(
            req.category@,
        )) ==> (r matches Err(e) && e is ValidationError),
        valid_title(req.title@) && valid_post_content(req.content_markdown@) && valid_category(
            req.category@,
        ) && spec_parse_id(claims.sub@) is None ==> (r matches Err(e) && e is Unauthorized),
        r matches Ok(resp) ==> {
            &&& valid_title(req.title@) && valid_post_content(req.content_markdown@)
                && valid_category(req.category@)
            &&& spec_parse_id(claims.sub@) is Some
            &&& resp.success == true
            &&& resp.id == old(repo).spec_next_id()
            &&& final(repo)@ == inserted(
                old(repo)@,
                PostView {
                    id: old(repo).spec_next_id(),
                    title: req.title@,
                    content_markdown: req.content_markdown@,
                    category: req.category@,
                    author_id: spec_parse_id(claims.sub@).unwrap(),
                    is_published: match req.is_published {
                        Some(b) => b,
                        None => false,
                    },
                    view_count: 0,
                    cover_url: match req.cover_url {
                        Some(c) => Some(c@),
                        None => None,
                    },
                    created_at: now as int,
                    updated_at: now as int,
                },
            )
        },
        r matches Err(e) ==> (e is ValidationError || e is Unauthorized
            || e is InternalServerError),
        r is Ok <==> (valid_title(req.title@) && valid_post_content(req.content_markdown@)
            && valid_category(req.category@) && spec_parse_id(claims.sub@) is Some && old(
            repo,
        ).spec_next_id() < i32::MAX),
        r matches Err(e) ==> (e is InternalServerError ==> old(repo).spec_next_id() == i32::MAX),
{
    if let Err(e) = req.validate() {
        return Err(e);
    }
    let author_id = match parse_user_id(claims.sub.as_str()) {
        Some(id) => id,
        None => {
            return Err(
                CustomError::Unauthorized(String::from_str("the token's user id is invalid")),
            );
        },
    };
    let post = match repo.create_post(req, author_id, now) {
        Ok(p) => p,
        Err(e) => {
            return Err(e);
        },
    };
    Ok(
        IdResponse {
            success: true,
            id: post.id,
            message: Some(String::from_str("the post was created")),
        },
    )
}

/// Returns one post, open to anonymous callers, and counts the view: the
/// returned payload shows the post as it was before this view was added.
pub fn get_post_by_id(repo: &mut PostRepository, post_id: i32) -> (r: CustomResult<PostInfo>)
    requires
        old(repo).wf(),
    ensures
        final(repo).wf(),
        !contains_post_id(old(repo)@, post_id as int) ==> (r matches Err(e) && e is NotFound
            && final(repo)@ == old(repo)@),
        r matches Ok(info) ==> {
            let idx = post_idx_of(old(repo)@, post_id as int);
            let p = old(repo)@[idx];
            &&& contains_post_id(old(repo)@, post_id as int)
            &&& post_info_matches(info, p)
            &&& final(repo)@ == old(repo)@.update(
                idx,
                PostView {
                    view_count: if p.view_count < u64::MAX {
                        p.view_count + 1
                    } else {
                        p.view_count
                    },
                    ..p
                },
            )
        },
        r is Err <==> !contains_post_id(old(repo)@, post_id as int),
{
    let post = match repo.get_post_by_id(post_id) {
        Ok(Some(p)) => p,
        Ok(None) => {
            return Err(CustomError::NotFound(String::from_str("the post was not found")));
        },
        Err(e) => {
            return Err(e);
        },
    };
    // The view counter is secondary to the read: a failure here must not
    // fail the request. With the post just found it cannot fail at all.
    let _ = repo.increment_view_count(post_id);
    Ok(post.to_post_info())
}

/// Updates a post: only its author or an administrator may; the payload
/// must validate, and only the fields present are changed.
pub fn update_post(
    claims: &Claims,
    repo: &mut PostRepository,
    post_id: i32,
    req: UpdatePostRequest,
    now: i64,
) -> (r: CustomResult<BaseResponse>)
    requires
        old(repo).wf(),
    ensures
        final(repo).wf(),
        r is Err ==> final(repo)@ == old(repo)@,
        r matches Ok(resp) ==> {
            let idx = post_idx_of(old(repo)@, post_id as int);
            &&& contains_post_id(old(repo)@, post_id as int)
            &&& spec_parse_id(claims.sub@) is Some
            &&& may_modify_post(old(repo)@[idx], spec_parse_id(claims.sub@).unwrap(), claims.role@)
            &&& resp.success == true
            &&& final(repo)@ == old(repo)@.update(
                idx,
                updated_post(
                    old(repo)@[idx],
                    opt_view(req.title),
                    opt_view(req.content_markdown),
                    opt_view(req.category),
                    req.is_published,
                    opt_view(req.cover_url),
                    now as int,
                ),
            )
        },
        contains_post_id(old(repo)@, post_id as int) && spec_parse_id(claims.sub@) is Some
            && !may_modify_post(
            old(repo)@[post_idx_of(old(repo)@, post_id as int)],
            spec_parse_id(claims.sub@).unwrap(),
            claims.role@,
        ) && (req.title matches Some(t) ==> valid_title(t@)) && (req.content_markdown matches Some(
            c,
        ) ==> valid_post_content(c@)) && (req.category matches Some(c) ==> valid_category(c@)) ==> (
        r matches Err(e) && e is Forbidden),
        r is Ok <==> ((req.title matches Some(t) ==> valid_title(t@)) && (
        req.content_markdown matches Some(c) ==> valid_post_content(c@)) && (
        req.category matches Some(c) ==> valid_category(c@)) && contains_post_id(
            old(repo)@,
            post_id as int,
        ) && spec_parse_id(claims.sub@) is Some && may_modify_post(
            old(repo)@[post_idx_of(old(repo)@, post_id as int)],
            spec_parse_id(claims.sub@).unwrap(),
            claims.role@,
        )),
        r matches Err(e) ==> (e is ValidationError || e is NotFound || e is Unauthorized
            || e is Forbidden),
{
    if let Err(e) = req.validate() {
        return Err(e);
    }
    let existing = match repo.get_post_by_id(post_id) {
        Ok(Some(p)) => p,
        Ok(None) => {
            return Err(CustomError::NotFound(String::from_str("the post was not found")));
        },
        Err(e) => {
            return Err(e);
        },
    };
    let operator_id = match parse_user_id(claims.sub.as_str()) {
        Some(id) => id,
        None => {
            return Err(
                CustomError::Unauthorized(String::from_str("the token's user id is invalid")),
            );
        },
    };
    if existing.author_id != operator_id && !claims.is_admin() {
        return Err(
            CustomError::Forbidden(String::from_str("no permission to update this post")),
        );
    }
    match repo.update_post(post_id, req, now) {
        Ok(_) => Ok(
            BaseResponse { success: true, message: Some(String::from_str("the post was updated")) },
        ),
        Err(e) => Err(e),
    }
}

/// Deletes a post: only its author or an administrator may.
pub fn delete_post(claims: &Claims, repo: &mut PostRepository, post_id: i32) -> (r: CustomResult<
    BaseResponse,
>)
    requires
        old(repo).wf(),
    ensures
        final(repo).wf(),
        r is Err ==> final(repo)@ == old(repo)@,
        !contains_post_id(old(repo)@, post_id as int) ==> (r matches Err(e) && e is NotFound),
        contains_post_id(old(repo)@, post_id as int) && spec_parse_id(claims.sub@) is Some
            && !may_modify_post(
            old(repo)@[post_idx_of(old(repo)@, post_id as int)],
            spec_parse_id(claims.sub@).unwrap(),
            claims.role@,
        ) ==> (r matches Err(e) && e is Forbidden),
        r is Ok <==> (contains_post_id(old(repo)@, post_id as int) && spec_parse_id(claims.sub@)
            is Some && may_modify_post(
            old(repo)@[post_idx_of(old(repo)@, post_id as int)],
            spec_parse_id(claims.sub@).unwrap(),
            claims.role@,
        )),
        r matches Ok(resp) ==> {
            let idx = post_idx_of(old(repo)@, post_id as int);
            &&& resp.success == true
            &&& final(repo)@ == old(repo)@.remove(idx)
        },
        r matches Err(e) ==> (e is NotFound || e is Unauthorized || e is Forbidden),
{
    let existing = match repo.get_post_by_id(post_id) {
        Ok(Some(p)) => p,
        Ok(None) => {
            return Err(CustomError::NotFound(String::from_str("the post was not found")));
        },
        Err(e) => {
            return Err(e);
        },
    };
    let operator_id = match parse_user_id(claims.sub.as_str()) {
        Some(id) => id,
        None => {
            return Err(
                CustomError::Unauthorized(String::from_str("the token's user id is invalid")),
            );
        },
    };
    if existing.author_id != operator_id && !claims.is_admin() {
        return Err(
            CustomError::Forbidden(String::from_str("no permission to delete this post")),
        );
    }
    match repo.delete_post(post_id) {
        Ok(()) => Ok(
            BaseResponse { success: true, message: Some(String::from_str("the post was deleted")) },
        ),
        Err(e) => Err(e),
    }
}

/// The filter that a listing request effectively runs under: anyone who is
/// not an authenticated administrator only sees published posts.
pub open spec fn effective_filter(req: PostListRequest, auth: Option<Claims>) -> PostFilter {
    if auth matches Some(c) && c.role@ == "admin"@ {
        req.spec_filter()
    } else {
        PostFilter { published_only: true, ..req.spec_filter() }
    }
}

/// The public post listing: paginated, filtered and searched. Callers who
/// are not administrators are restricted to published posts whatever the
/// request says.
pub fn get_posts_list_and_search(
    auth_user: Option<Claims>,
    repo: &PostRepository,
    req: PostListRequest,
) -> (r: CustomResult<PostListResponse>)
    requires
        repo.wf(),
    ensures
        r is Err <==> req.limit == Some(0u64),
        r matches Err(e) ==> e is BadRequest,
        r matches Ok(resp) ==> {
            let listing = filtered_listing(repo@, effective_filter(req, auth_user));
            let page = match req.page {
                Some(p) => p as nat,
                None => 1,
            };
            let size = match req.limit {
                Some(l) => l as nat,
                None => 10,
            };
            let pg = spec_page(listing, eff_page(page), size);
            &&& resp.success == true
            &&& resp.posts@.len() == pg.len()
            &&& forall|k: int|
                0 <= k < pg.len() ==> post_info_matches(#[trigger] resp.posts@[k], pg[k])
            &&& resp.total_pages == spec_num_pages(listing.len(), size)
            &&& resp.current_page == page
            &&& resp.total_posts == listing.len()
        },
{
    let is_admin = match &auth_user {
        Some(c) => c.is_admin(),
        None => false,
    };
    let effective_req = if is_admin {
        req
    } else {
        PostListRequest {
            page: req.page,
            limit: req.limit,
            category: req.category,
            query: req.query,
            published_only: Some(true),
            author_id: req.author_id,
        }
    };
    match repo.get_paginated_posts(effective_req) {
        Ok((posts, total_pages, current_page, total_posts)) => Ok(
            PostListResponse {
                success: true,
                posts,
                total_pages,
                current_page,
                total_posts,
                message: None,
            },
        ),
        Err(e) => Err(e),
    }
}

} // verus!
