//! Request and response payloads, with their field-level validation rules.
//!
//! Validation follows the constraints the API enforces on every boundary:
//! usernames are 3 to 20 characters, passwords at least 6, post titles 1 to
//! 255, categories 1 to 50, comments 1 to 1000, and emails must have the
//! conventional shape. Every `validate` method states exactly which payloads
//! it accepts.

use vstd::prelude::*;

use crate::error::CustomError;
use crate::error::CustomResult;
use crate::strutil::str_eq;

verus! {

/// What `validator::validate_email` accepts: an email address in the HTML5
/// sense. The predicate depends on the characters of the string alone.
pub uninterp spec fn is_valid_email(s: Seq<char>) -> bool;

/// Relies on `validator::validate_email` (validator crate): a pure
/// predicate on the string, with no other input.
#[verifier::external_body]
fn validate_email_exec(s: &str) -> (r: bool)
    ensures
        r == is_valid_email(s@),
{
    validator::validate_email(s)
}

/// A username must have 3 to 20 characters.
pub open spec fn valid_username(s: Seq<char>) -> bool {
    3 <= s.len() <= 20
}

/// A password must have at least 6 characters.
pub open spec fn valid_password(s: Seq<char>) -> bool {
    s.len() >= 6
}

/// A post title must have 1 to 255 characters.
pub open spec fn valid_title(s: Seq<char>) -> bool {
    1 <= s.len() <= 255
}

/// Post content must be non-empty.
pub open spec fn valid_post_content(s: Seq<char>) -> bool {
    s.len() >= 1
}

/// A category must have 1 to 50 characters.
pub open spec fn valid_category(s: Seq<char>) -> bool {
    1 <= s.len() <= 50
}

/// Comment content must have 1 to 1000 characters.
pub open spec fn valid_comment_content(s: Seq<char>) -> bool {
    1 <= s.len() <= 1000
}

/// A role string must be exactly "user" or "admin".
pub open spec fn valid_role(s: Seq<char>) -> bool {
    s == "user"@ || s == "admin"@
}

/// Checks that a role string is one of the two accepted roles.
pub fn validate_role(role: &str) -> (r: CustomResult<()>)
    ensures
        r is Ok <==> valid_role(role@),
        r matches Err(e) ==> e is BadRequest,
{
    if str_eq(role, "user") || str_eq(role, "admin") {
        Ok(())
    } else {
        Err(
            CustomError::BadRequest(
                String::from_str("the role must be either 'user' or 'admin'"),
            ),
        )
    }
}

/// The default page number for paginated listings.
pub fn default_page() -> (r: Option<u64>)
    ensures
        r == Some(1u64),
{
    Some(1)
}

/// The default page size for paginated listings.
pub fn default_limit() -> (r: Option<u64>)
    ensures
        r == Some(10u64),
{
    Some(10)
}

/// The default page size for query-parameter driven searches.
pub fn default_per_page() -> (r: u32)
    ensures
        r == 10,
{
    10
}

// ======================== users ========================
/// Registration payload: a new account's username, email and plain password.
pub struct RegisterRequest {
    pub username: String,
    pub email: String,
    pub password: String,
}

impl RegisterRequest {
    /// Accepts the payload exactly when the username, email and password
    /// all meet their constraints.
    pub fn validate(&self) -> (r: CustomResult<()>)
        ensures
            r is Ok <==> valid_username(self.username@) && is_valid_email(self.email@)
                && valid_password(self.password@),
            r matches Err(e) ==> e is ValidationError,
    {
        let ulen = self.username.as_str().unicode_len();
        if ulen < 3 || ulen > 20 {
            return Err(
                CustomError::ValidationError(
                    String::from_str("the username must have 3 to 20 characters"),
                ),
            );
        }
        if !validate_email_exec(self.email.as_str()) {
            return Err(
                CustomError::ValidationError(String::from_str("the email address is invalid")),
            );
        }
        if self.password.as_str().unicode_len() < 6 {
            return Err(
                CustomError::ValidationError(
                    String::from_str("the password must have at least 6 characters"),
                ),
            );
        }
        Ok(())
    }
}

/// Registration response: the new user's id and a session token.
pub struct RegisterResponse {
    pub success: bool,
    pub token: Option<String>,
    pub user_id: i32,
    pub message: Option<String>,
}

/// Login payload: a username or email, and the plain password.
pub struct LoginRequest {
    pub username_or_email: String,
    pub password: String,
}

/// Login response: a session token and the user's public profile.
pub struct LoginResponse {
    pub success: bool,
    pub token: Option<String>,
    pub user_info: Option<UserInfo>,
    pub message: Option<String>,
}

/// A user's public profile, as returned by the API
/// (never the password hash).
pub struct UserInfo {
    pub id: i32,
    pub username: String,
    pub email: String,
    pub role: String,
    pub created_at: i64,
}

/// Response carrying one user's profile.
pub struct UserInfoResponse {
    pub success: bool,
    pub user: Option<UserInfo>,
    pub message: Option<String>,
}

/// Partial self-update: only the fields present are changed.
pub struct UpdateMyProfileRequest {
    pub username: Option<String>,
    pub email: Option<String>,
    pub password: Option<String>,
}

impl UpdateMyProfileRequest {
    /// Accepts the payload exactly when every present field meets its
    /// constraint; absent fields are not checked.
    pub fn validate(&self) -> (r: CustomResult<()>)
        ensures
            r is Ok <==> (self.username matches Some(u) ==> valid_username(u@)) && (
            self.email matches Some(e) ==> is_valid_email(e@)) && (self.password matches Some(p)
                ==> valid_password(p@)),
            r matches Err(e) ==> e is ValidationError,
    {
        if let Some(username) = &self.username {
            let ulen = username.as_str().unicode_len();
            if ulen < 3 || ulen > 20 {
                return Err(
                    CustomError::ValidationError(
                        String::from_str("the username must have 3 to 20 characters"),
                    ),
                );
            }
        }
        if let Some(email) = &self.email {
            if !validate_email_exec(email.as_str()) {
                return Err(
                    CustomError::ValidationError(String::from_str("the email address is invalid")),
                );
            }
        }
        if let Some(password) = &self.password {
            if password.as_str().unicode_len() < 6 {
                return Err(
                    CustomError::ValidationError(
                        String::from_str("the password must have at least 6 characters"),
                    ),
                );
            }
        }
        Ok(())
    }
}

/// Admin update of any user: partial fields plus an optional role change.
pub struct UpdateUserRequest {
    pub username: Option<String>,
    pub email: Option<String>,
    pub password: Option<String>,
    pub role: Option<String>,
}

impl UpdateUserRequest {
    /// Accepts the payload exactly when every present field meets its
    /// constraint, the role being one of "user" and "admin".
    pub fn validate(&self) -> (r: CustomResult<()>)
        ensures
            r is Ok <==> (self.username matches Some(u) ==> valid_username(u@)) && (
            self.email matches Some(e) ==> is_valid_email(e@)) && (self.password matches Some(p)
                ==> valid_password(p@)) && (self.role matches Some(ro) ==> valid_role(ro@)),
            r matches Err(e) ==> e is ValidationError,
    {
        if let Some(username) = &self.username {
            let ulen = username.as_str().unicode_len();
            if ulen < 3 || ulen > 20 {
                return Err(
                    CustomError::ValidationError(
                        String::from_str("the username must have 3 to 20 characters"),
                    ),
                );
            }
        }
        if let Some(email) = &self.email {
            if !validate_email_exec(email.as_str()) {
                return Err(
                    CustomError::ValidationError(String::from_str("the email address is invalid")),
                );
            }
        }
        if let Some(password) = &self.password {
            if password.as_str().unicode_len() < 6 {
                return Err(
                    CustomError::ValidationError(
                        String::from_str("the password must have at least 6 characters"),
                    ),
                );
            }
        }
        if let Some(role) = &self.role {
            if !(str_eq(role.as_str(), "user") || str_eq(role.as_str(), "admin")) {
                return Err(
                    CustomError::ValidationError(
                        String::from_str("the role must be either 'user' or 'admin'"),
                    ),
                );
            }
        }
        Ok(())
    }
}

/// Admin creation of a user with an explicit role.
pub struct CreateUserByAdminRequest {
    pub username: String,
    pub email: String,
    pub password: String,
    pub role: String,
}

impl CreateUserByAdminRequest {
    /// Accepts the payload exactly when username, email, password and role
    /// all meet their constraints.
    pub fn validate(&self) -> (r: CustomResult<()>)
        ensures
            r is Ok <==> valid_username(self.username@) && is_valid_email(self.email@)
                && valid_password(self.password@) && valid_role(self.role@),
            r matches Err(e) ==> e is ValidationError,
    {
        let ulen = self.username.as_str().unicode_len();
        if ulen < 3 || ulen > 20 {
            return Err(
                CustomError::ValidationError(
                    String::from_str("the username must have 3 to 20 characters"),
                ),
            );
        }
        if !validate_email_exec(self.email.as_str()) {
            return Err(
                CustomError::ValidationError(String::from_str("the email address is invalid")),
            );
        }
        if self.password.as_str().unicode_len() < 6 {
            return Err(
                CustomError::ValidationError(
                    String::from_str("the password must have at least 6 characters"),
                ),
            );
        }
        if !(str_eq(self.role.as_str(), "user") || str_eq(self.role.as_str(), "admin")) {
            return Err(
                CustomError::ValidationError(
                    String::from_str("the role must be either 'user' or 'admin'"),
                ),
            );
        }
        Ok(())
    }
}

/// Batch deletion of users by id.
pub struct DeleteUserRequest {
    pub user_ids: Vec<i32>,
}

// ======================== posts ========================
/// A post, as returned by the API.
pub struct PostInfo {
    pub id: i32,
    pub title: String,
    pub content_markdown: String,
    pub category: String,
    pub author_id: i32,
    pub is_published: bool,
    pub view_count: u64,
    pub cover_url: Option<String>,
    pub created_at: i64,
    pub updated_at: i64,
}

/// Payload for creating a post; `is_published` defaults to false.
pub struct CreatePostRequest {
    pub title: String,
    pub content_markdown: String,
    pub category: String,
    pub is_published: Option<bool>,
    pub cover_url: Option<String>,
}

impl CreatePostRequest {
    /// Accepts the payload exactly when title, content and category meet
    /// their constraints.
    pub fn validate(&self) -> (r: CustomResult<()>)
        ensures
            r is Ok <==> valid_title(self.title@) && valid_post_content(self.content_markdown@)
                && valid_category(self.category@),
            r matches Err(e) ==> e is ValidationError,
    {
        let tlen = self.title.as_str().unicode_len();
        if tlen < 1 || tlen > 255 {
            return Err(
                CustomError::ValidationError(
                    String::from_str("the title must have 1 to 255 characters"),
                ),
            );
        }
        if self.content_markdown.as_str().unicode_len() < 1 {
            return Err(
                CustomError::ValidationError(String::from_str("the content must not be empty")),
            );
        }
        let clen = self.category.as_str().unicode_len();
        if clen < 1 || clen > 50 {
            return Err(
                CustomError::ValidationError(
                    String::from_str("the category must have 1 to 50 characters"),
                ),
            );
        }
        Ok(())
    }
}

/// Partial update of a post: only the fields present are changed.
pub struct UpdatePostRequest {
    pub title: Option<String>,
    pub content_markdown: Option<String>,
    pub category: Option<String>,
    pub is_published: Option<bool>,
    pub cover_url: Option<String>,
}

impl UpdatePostRequest {
    /// Accepts the payload exactly when every present field meets its
    /// constraint; absent fields are not checked.
    pub fn validate(&self) -> (r: CustomResult<()>)
        ensures
            r is Ok <==> (self.title matches Some(t) ==> valid_title(t@)) && (
            self.content_markdown matches Some(c) ==> valid_post_content(c@)) && (
            self.category matches Some(c) ==> valid_category(c@)),
            r matches Err(e) ==> e is ValidationError,
    {
        if let Some(title) = &self.title {
            let tlen = title.as_str().unicode_len();
            if tlen < 1 || tlen > 255 {
                return Err(
                    CustomError::ValidationError(
                        String::from_str("the title must have 1 to 255 characters"),
                    ),
                );
            }
        }
        if let Some(content) = &self.content_markdown {
            if content.as_str().unicode_len() < 1 {
                return Err(
                    CustomError::ValidationError(String::from_str("the content must not be empty")),
                );
            }
        }
        if let Some(category) = &self.category {
            let clen = category.as_str().unicode_len();
            if clen < 1 || clen > 50 {
                return Err(
                    CustomError::ValidationError(
                        String::from_str("the category must have 1 to 50 characters"),
                    ),
                );
            }
        }
        Ok(())
    }
}

/// Query parameters of the paginated, filtered post listing.
pub struct PostListRequest {
    pub page: Option<u64>,
    pub limit: Option<u64>,
    pub category: Option<String>,
    pub query: Option<String>,
    pub published_only: Option<bool>,
    pub author_id: Option<i32>,
}

/// One page of posts, with the pagination bookkeeping.
pub struct PostListResponse {
    pub success: bool,
    pub posts: Vec<PostInfo>,
    pub total_pages: u64,
    pub current_page: u64,
    pub total_posts: u64,
    pub message: Option<String>,
}

// ======================== favorites ========================
/// Payload of the favorite toggle.
pub struct ToggleFavoriteRequest {
    pub post_id: i32,
}

/// One page of a user's favorited posts.
pub struct FavoriteListResponse {
    pub success: bool,
    pub favorites: Vec<PostInfo>,
    pub total_pages: u64,
    pub current_page: u64,
    pub total_favorites: u64,
    pub message: Option<String>,
}

// ======================== comments ========================
/// A comment, as returned by the API.
pub struct CommentInfo {
    pub id: i32,
    pub content: String,
    pub post_id: i32,
    pub user_id: i32,
    pub parent_id: Option<i32>,
    pub created_at: i64,
}

/// Payload for creating a comment, optionally as a reply to another.
pub struct CreateCommentRequest {
    pub content: String,
    pub post_id: i32,
    pub parent_id: Option<i32>,
}

impl CreateCommentRequest {
    /// Accepts the payload exactly when the content meets its constraint.
    pub fn validate(&self) -> (r: CustomResult<()>)
        ensures
            r is Ok <==> valid_comment_content(self.content@),
            r matches Err(e) ==> e is ValidationError,
    {
        let clen = self.content.as_str().unicode_len();
        if clen < 1 || clen > 1000 {
            return Err(
                CustomError::ValidationError(
                    String::from_str("the comment must have 1 to 1000 characters"),
                ),
            );
        }
        Ok(())
    }
}

/// Payload for editing a comment's content.
pub struct UpdateCommentRequest {
    pub content: String,
}

impl UpdateCommentRequest {
    /// Accepts the payload exactly when the content meets its constraint.
    pub fn validate(&self) -> (r: CustomResult<()>)
        ensures
            r is Ok <==> valid_comment_content(self.content@),
            r matches Err(e) ==> e is ValidationError,
    {
        let clen = self.content.as_str().unicode_len();
        if clen < 1 || clen > 1000 {
            return Err(
                CustomError::ValidationError(
                    String::from_str("the comment must have 1 to 1000 characters"),
                ),
            );
        }
        Ok(())
    }
}

/// Query parameters of the paginated comment listing of one post.
pub struct CommentListRequest {
    pub post_id: i32,
    pub page: Option<u64>,
    pub limit: Option<u64>,
}

/// One page of comments, with the pagination bookkeeping.
pub struct CommentListResponse {
    pub success: bool,
    pub comments: Vec<CommentInfo>,
    pub total_pages: u64,
    pub current_page: u64,
    pub total_comments: u64,
    pub message: Option<String>,
}

// ======================== generic responses ========================
/// The envelope of an operation without a payload.
pub struct BaseResponse {
    pub success: bool,
    pub message: Option<String>,
}

/// The envelope of an operation that returns a record id.
pub struct IdResponse {
    pub success: bool,
    pub id: i32,
    pub message: Option<String>,
}

} // verus!
