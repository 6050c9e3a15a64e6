//! Favorite handlers: the authenticated toggle and the caller's own
//! paginated favorite listing.

use vstd::prelude::*;

use crate::database::favorite::spec_toggle;
use crate::database::favorite::user_favorites;
use crate::database::favorite::with_existing_posts;
use crate::database::favorite::FavoriteRepository;
use crate::database::post::contains_post_id;
use crate::database::post::post_idx_of;
use crate::database::post::post_info_matches;
use crate::database::post::PostRepository;
use crate::error::CustomError;
use crate::error::CustomResult;
use crate::handler::auth::Claims;
use crate::handler::idl::BaseResponse;
use crate::handler::idl::FavoriteListResponse;
use crate::handler::idl::PostListRequest;
use crate::handler::idl::ToggleFavoriteRequest;
use crate::numstr::parse_user_id;
use crate::numstr::spec_parse_id;
use crate::pagination::eff_page;
use crate::pagination::spec_num_pages;
use crate::pagination::spec_page;

verus! {

/// Toggles the caller's favorite on a post: the post must exist; an
/// existing favorite is removed, a missing one added.
pub fn toggle_post_favorite(
    claims: &Claims,
    posts: &PostRepository,
    favorites: &mut FavoriteRepository,
    req: ToggleFavoriteRequest,
    now: i64,
) -> (r: CustomResult<BaseResponse>)
    requires
        old(favorites).wf(),
        posts.wf(),
    ensures
        final(favorites).wf(),
        r is Err ==> final(favorites)@ == old(favorites)@,
        spec_parse_id(claims.sub@) is None ==> (r matches Err(e) && e is Unauthorized),
        spec_parse_id(claims.sub@) is Some && !contains_post_id(posts@, req.post_id as int) ==> (
        r matches Err(e) && e is NotFound),
        r is Ok <==> (spec_parse_id(claims.sub@) is Some && contains_post_id(
            posts@,
            req.post_id as int,
        )),
        r matches Ok(resp) ==> {
            let op = spec_parse_id(claims.sub@).unwrap();
            &&& spec_parse_id(claims.sub@) is Some
            &&& contains_post_id(posts@, req.post_id as int)
            &&& resp.success == true
            &&& final(favorites)@ == spec_toggle(
                old(favorites)@,
                op,
                req.post_id as int,
                now as int,
            ).0
        },
        r matches Err(e) ==> (e is Unauthorized || e is NotFound),
{
    let user_id = match parse_user_id(claims.sub.as_str()) {
        Some(id) => id,
        None => {
            return Err(
                CustomError::Unauthorized(String::from_str("the token's user id is invalid")),
            );
        },
    };
    if !posts.contains_post(req.post_id) {
        return Err(CustomError::NotFound(String::from_str("the post was not found")));
    }
    match favorites.toggle_favorite(user_id, req.post_id, now) {
        Ok(now_favorited) => {
            let message = if now_favorited {
                String::from_str("the post was favorited")
            } else {
                String::from_str("the favorite was removed")
            };
            Ok(BaseResponse { success: true, message: Some(message) })
        },
        Err(e) => Err(e),
    }
}

/// One page of the caller's favorited posts, most recently favorited
/// first. A requested page size of zero fails with `BadRequest`.
pub fn get_my_favorite_posts(
    claims: &Claims,
    posts: &PostRepository,
    favorites: &FavoriteRepository,
    req: PostListRequest,
) -> (r: CustomResult<FavoriteListResponse>)
    requires
        favorites.wf(),
        posts.wf(),
    ensures
        spec_parse_id(claims.sub@) is None ==> (r matches Err(e) && e is Unauthorized),
        spec_parse_id(claims.sub@) is Some && req.limit == Some(0u64) ==> (r matches Err(e)
            && e is BadRequest),
        r matches Ok(resp) ==> {
            let listing = user_favorites(favorites@, spec_parse_id(claims.sub@).unwrap());
            let page = match req.page {
                Some(p) => p as nat,
                None => 1,
            };
            let size = match req.limit {
                Some(l) => l as nat,
                None => 10,
            };
            let pg = spec_page(listing, eff_page(page), size);
            let shown = with_existing_posts(pg, posts@);
            &&& spec_parse_id(claims.sub@) is Some
            &&& resp.success == true
            &&& resp.favorites@.len() == shown.len()
            &&& forall|k: int|
                0 <= k < shown.len() ==> post_info_matches(
                    #[trigger] resp.favorites@[k],
                    posts@[post_idx_of(posts@, shown[k].post_id)],
                )
            &&& resp.total_pages == spec_num_pages(listing.len(), size)
            &&& resp.current_page == page
            &&& resp.total_favorites == listing.len()
        },
        r is Ok <==> spec_parse_id(claims.sub@) is Some && req.limit != Some(0u64),
        r matches Err(e) ==> (e is Unauthorized || e is BadRequest),
{
    let user_id = match parse_user_id(claims.sub.as_str()) {
        Some(id) => id,
        None => {
            return Err(
                CustomError::Unauthorized(String::from_str("the token's user id is invalid")),
            );
        },
    };
    let page: u64 = match req.page {
        Some(p) => p,
        None => 1,
    };
    let limit: u64 = match req.limit {
        Some(l) => {
            if l == 0 {
                return Err(
                    CustomError::BadRequest(String::from_str("the page size must be at least 1")),
                );
            }
            l
        },
        None => 10,
    };
    match favorites.get_paginated_user_favorites(posts, user_id, page, limit) {
        Ok((items, total_pages, current_page, total_favorites)) => Ok(
            FavoriteListResponse {
                success: true,
                favorites: items,
                total_pages,
                current_page,
                total_favorites,
                message: None,
            },
        ),
        Err(e) => Err(e),
    }
}

} // verus!
