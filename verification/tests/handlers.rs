//! End-to-end handler tests: registration and login, token round trips,
//! authorization boundaries, and the public listings.

use blog_engine::database::comment::CommentRepository;
use blog_engine::database::favorite::FavoriteRepository;
use blog_engine::database::post::PostRepository;
use blog_engine::database::user::UserRepository;
use blog_engine::error::CustomError;
use blog_engine::handler::auth::verify_token;
use blog_engine::handler::auth::Claims;
use blog_engine::handler::comment;
use blog_engine::handler::favorite;
use blog_engine::handler::idl::CommentListRequest;
use blog_engine::handler::idl::CreateCommentRequest;
use blog_engine::handler::idl::CreatePostRequest;
use blog_engine::handler::idl::LoginRequest;
use blog_engine::handler::idl::PostListRequest;
use blog_engine::handler::idl::RegisterRequest;
use blog_engine::handler::idl::ToggleFavoriteRequest;
use blog_engine::handler::idl::UpdateMyProfileRequest;
use blog_engine::handler::idl::UpdatePostRequest;
use blog_engine::handler::post;
use blog_engine::handler::user;
use blog_engine::Config;

const NOW: i64 = 4_000_000_000;

fn config() -> Config {
    Config {
        jwt_secret: "SECRET-REDACTED".to_string(),
        bcrypt_cost: 4,
    }
}

fn claims_for(user_id: i32, username: &str, role: &str) -> Claims {
    Claims {
        sub: user_id.to_string(),
        username: username.to_string(),
        role: role.to_string(),
        exp: (NOW + 2_592_000) as usize,
    }
}

fn register(repo: &mut UserRepository, username: &str, email: &str) -> i32 {
    let resp = user::register_user(
        &config(),
        repo,
        RegisterRequest {
            username: username.to_string(),
            email: email.to_string(),
            password: "secret1".to_string(),
        },
        NOW,
    )
    .unwrap();
    resp.user_id
}

fn empty_list_request() -> PostListRequest {
    PostListRequest {
        page: None,
        limit: None,
        category: None,
        query: None,
        published_only: None,
        author_id: None,
    }
}

#[test]
fn scenario_register_then_duplicate_username() {
    let cfg = config();
    let mut repo = UserRepository::new();
    let resp = user::register_user(
        &cfg,
        &mut repo,
        RegisterRequest {
            username: "alice".to_string(),
            email: "alice@x.com".to_string(),
            password: "secret1".to_string(),
        },
        NOW,
    )
    .unwrap();
    assert!(resp.success);
    assert!(resp.token.is_some());
    assert!(resp.user_id > 0);

    // a second registration with the same username and a different email
    let second = user::register_user(
        &cfg,
        &mut repo,
        RegisterRequest {
            username: "alice".to_string(),
            email: "alice2@x.com".to_string(),
            password: "secret1".to_string(),
        },
        NOW + 1,
    );
    match second {
        Err(CustomError::Conflict(msg)) => assert!(msg.contains("username")),
        other => panic!("expected a Conflict, got {:?}", other.is_ok()),
    }
}

#[test]
fn register_rejects_invalid_payloads() {
    let cfg = config();
    let mut repo = UserRepository::new();
    let short_name = user::register_user(
        &cfg,
        &mut repo,
        RegisterRequest {
            username: "ab".to_string(),
            email: "a@x.com".to_string(),
            password: "secret1".to_string(),
        },
        NOW,
    );
    assert!(matches!(short_name, Err(CustomError::ValidationError(_))));

    let bad_email = user::register_user(
        &cfg,
        &mut repo,
        RegisterRequest {
            username: "alice".to_string(),
            email: "not-an-email".to_string(),
            password: "secret1".to_string(),
        },
        NOW,
    );
    assert!(matches!(bad_email, Err(CustomError::ValidationError(_))));

    let short_password = user::register_user(
        &cfg,
        &mut repo,
        RegisterRequest {
            username: "alice".to_string(),
            email: "alice@x.com".to_string(),
            password: "12345".to_string(),
        },
        NOW,
    );
    assert!(matches!(short_password, Err(CustomError::ValidationError(_))));
    assert!(repo.get_user_by_username_or_email("alice").unwrap().is_none());
}

#[test]
fn login_round_trip() {
    let cfg = config();
    let mut repo = UserRepository::new();
    register(&mut repo, "alice", "alice@x.com");

    // by username
    let resp = user::login_user(
        &cfg,
        &repo,
        LoginRequest {
            username_or_email: "alice".to_string(),
            password: "secret1".to_string(),
        },
        NOW + 5,
    )
    .unwrap();
    assert!(resp.success);
    assert!(resp.token.is_some());
    let info = resp.user_info.unwrap();
    assert_eq!(info.username, "alice");
    assert_eq!(info.email, "alice@x.com");
    assert_eq!(info.role, "user");

    // by email
    let resp = user::login_user(
        &cfg,
        &repo,
        LoginRequest {
            username_or_email: "alice@x.com".to_string(),
            password: "secret1".to_string(),
        },
        NOW + 6,
    )
    .unwrap();
    assert!(resp.success);

    // wrong password
    let wrong = user::login_user(
        &cfg,
        &repo,
        LoginRequest {
            username_or_email: "alice".to_string(),
            password: "wrong-password".to_string(),
        },
        NOW + 7,
    );
    assert!(matches!(wrong, Err(CustomError::Unauthorized(_))));

    // unknown user
    let unknown = user::login_user(
        &cfg,
        &repo,
        LoginRequest {
            username_or_email: "nobody".to_string(),
            password: "secret1".to_string(),
        },
        NOW + 8,
    );
    assert!(matches!(unknown, Err(CustomError::Unauthorized(_))));
}

#[test]
fn token_round_trip_and_get_me() {
    let cfg = config();
    let mut repo = UserRepository::new();
    let resp = user::register_user(
        &cfg,
        &mut repo,
        RegisterRequest {
            username: "alice".to_string(),
            email: "alice@x.com".to_string(),
            password: "secret1".to_string(),
        },
        NOW,
    )
    .unwrap();
    let token = resp.token.unwrap();
    let claims = verify_token(&token, &cfg.jwt_secret).unwrap();
    assert_eq!(claims.sub, resp.user_id.to_string());
    assert_eq!(claims.username, "alice");
    assert_eq!(claims.role, "user");

    let me = user::get_me(&claims, &repo).unwrap();
    assert!(me.success);
    let info = me.user.unwrap();
    assert_eq!(info.id, resp.user_id);
    assert_eq!(info.username, "alice");

    // a tampered token is rejected
    let mut broken = token.clone();
    broken.push('x');
    assert!(matches!(
        verify_token(&broken, &cfg.jwt_secret),
        Err(CustomError::JwtError(_))
    ));
    // the wrong secret is rejected
    assert!(matches!(
        verify_token(&token, "another-secret"),
        Err(CustomError::JwtError(_))
    ));
}

#[test]
fn update_me_partial_keeps_identity() {
    let cfg = config();
    let mut repo = UserRepository::new();
    let id = register(&mut repo, "alice", "alice@x.com");
    let before = repo.get_user_by_id(id).unwrap().unwrap();
    let claims = claims_for(id, "alice", "user");
    let resp = user::update_me(
        &claims,
        &cfg,
        &mut repo,
        UpdateMyProfileRequest {
            username: None,
            email: None,
            password: None,
        },
        NOW + 100,
    )
    .unwrap();
    assert!(resp.success);
    let after = repo.get_user_by_id(id).unwrap().unwrap();
    assert_eq!(after.username, before.username);
    assert_eq!(after.email, before.email);
    assert_eq!(after.password_hash, before.password_hash);
    assert_eq!(after.created_at, before.created_at);
    assert_eq!(after.updated_at, NOW + 100);
}

#[test]
fn admin_gate_forbids_plain_users() {
    let cfg = config();
    let mut repo = UserRepository::new();
    let id = register(&mut repo, "alice", "alice@x.com");
    let plain = claims_for(id, "alice", "user");
    assert!(matches!(
        user::get_user_by_id_admin(&plain, &repo, id),
        Err(CustomError::Forbidden(_))
    ));
    assert!(matches!(
        user::delete_user_admin(&plain, &mut repo, id),
        Err(CustomError::Forbidden(_))
    ));
    let create = user::create_user_admin(
        &plain,
        &cfg,
        &mut repo,
        blog_engine::handler::idl::CreateUserByAdminRequest {
            username: "bob".to_string(),
            email: "bob@x.com".to_string(),
            password: "secret1".to_string(),
            role: "user".to_string(),
        },
        NOW,
    );
    assert!(matches!(create, Err(CustomError::Forbidden(_))));
    // the store is unchanged
    assert!(repo.get_user_by_id(id).unwrap().is_some());
    assert!(repo.get_user_by_username_or_email("bob").unwrap().is_none());
}

#[test]
fn scenario_authorization_boundary_on_posts() {
    let mut posts = PostRepository::new();
    let author = claims_for(1, "alice", "user");
    let created = post::create_post(
        &author,
        &mut posts,
        CreatePostRequest {
            title: "alice's post".to_string(),
            content_markdown: "body".to_string(),
            category: "tech".to_string(),
            is_published: Some(true),
            cover_url: None,
        },
        NOW,
    )
    .unwrap();

    let stranger = claims_for(2, "mallory", "user");
    let update = post::update_post(
        &stranger,
        &mut posts,
        created.id,
        UpdatePostRequest {
            title: Some("defaced".to_string()),
            content_markdown: None,
            category: None,
            is_published: None,
            cover_url: None,
        },
        NOW + 1,
    );
    assert!(matches!(update, Err(CustomError::Forbidden(_))));
    let delete = post::delete_post(&stranger, &mut posts, created.id);
    assert!(matches!(delete, Err(CustomError::Forbidden(_))));
    // the record is unchanged
    let unchanged = posts.get_post_by_id(created.id).unwrap().unwrap();
    assert_eq!(unchanged.title, "alice's post");

    // an administrator may
    let admin = claims_for(3, "root", "admin");
    let update = post::update_post(
        &admin,
        &mut posts,
        created.id,
        UpdatePostRequest {
            title: Some("moderated".to_string()),
            content_markdown: None,
            category: None,
            is_published: None,
            cover_url: None,
        },
        NOW + 2,
    );
    assert!(update.is_ok());
    assert_eq!(
        posts.get_post_by_id(created.id).unwrap().unwrap().title,
        "moderated"
    );
}

#[test]
fn scenario_unpublished_post_hidden_from_anonymous() {
    let mut posts = PostRepository::new();
    let author = claims_for(1, "alice", "user");
    let created = post::create_post(
        &author,
        &mut posts,
        CreatePostRequest {
            title: "a draft".to_string(),
            content_markdown: "not ready".to_string(),
            category: "tech".to_string(),
            is_published: Some(false),
            cover_url: None,
        },
        NOW,
    )
    .unwrap();

    // anonymous listing with defaults: absent
    let listed = post::get_posts_list_and_search(None, &posts, empty_list_request()).unwrap();
    assert_eq!(listed.total_posts, 0);
    assert!(listed.posts.is_empty());

    // anonymous caller asking for everything is still restricted
    let mut all = empty_list_request();
    all.published_only = Some(false);
    let listed = post::get_posts_list_and_search(None, &posts, all).unwrap();
    assert_eq!(listed.total_posts, 0);

    // an administrator with published_only=false sees the draft
    let mut all = empty_list_request();
    all.published_only = Some(false);
    let admin = claims_for(2, "root", "admin");
    let listed = post::get_posts_list_and_search(Some(admin), &posts, all).unwrap();
    assert_eq!(listed.total_posts, 1);
    assert_eq!(listed.posts[0].title, "a draft");
    assert_eq!(listed.posts[0].id, created.id);
}

#[test]
fn get_post_increments_view_count() {
    let mut posts = PostRepository::new();
    let author = claims_for(1, "alice", "user");
    let created = post::create_post(
        &author,
        &mut posts,
        CreatePostRequest {
            title: "seen".to_string(),
            content_markdown: "body".to_string(),
            category: "tech".to_string(),
            is_published: Some(true),
            cover_url: None,
        },
        NOW,
    )
    .unwrap();
    let first = post::get_post_by_id(&mut posts, created.id).unwrap();
    assert_eq!(first.view_count, 0);
    let second = post::get_post_by_id(&mut posts, created.id).unwrap();
    assert_eq!(second.view_count, 1);
    let third = post::get_post_by_id(&mut posts, created.id).unwrap();
    assert_eq!(third.view_count, 2);

    let missing = post::get_post_by_id(&mut posts, 999);
    assert!(matches!(missing, Err(CustomError::NotFound(_))));
}

#[test]
fn scenario_nested_comment_cascade() {
    let mut posts = PostRepository::new();
    let mut comments = CommentRepository::new();
    let author = claims_for(1, "alice", "user");
    let created = post::create_post(
        &author,
        &mut posts,
        CreatePostRequest {
            title: "discussed".to_string(),
            content_markdown: "body".to_string(),
            category: "tech".to_string(),
            is_published: Some(true),
            cover_url: None,
        },
        NOW,
    )
    .unwrap();

    let c1 = comment::create_comment(
        &author,
        &mut comments,
        CreateCommentRequest {
            content: "first".to_string(),
            post_id: created.id,
            parent_id: None,
        },
        NOW + 1,
    )
    .unwrap();
    let replier = claims_for(2, "bob", "user");
    let c2 = comment::create_comment(
        &replier,
        &mut comments,
        CreateCommentRequest {
            content: "reply".to_string(),
            post_id: created.id,
            parent_id: Some(c1.id),
        },
        NOW + 2,
    )
    .unwrap();
    let fetched = comment::get_comment_by_id(&comments, c2.id).unwrap();
    assert_eq!(fetched.parent_id, Some(c1.id));

    // deleting the parent cascades to the reply
    let deleted = comment::delete_comment(&author, &mut comments, &posts, c1.id).unwrap();
    assert!(deleted.success);
    assert!(matches!(
        comment::get_comment_by_id(&comments, c1.id),
        Err(CustomError::NotFound(_))
    ));
    assert!(matches!(
        comment::get_comment_by_id(&comments, c2.id),
        Err(CustomError::NotFound(_))
    ));
}

#[test]
fn comment_authorization_boundary() {
    let mut posts = PostRepository::new();
    let mut comments = CommentRepository::new();
    let post_author = claims_for(1, "alice", "user");
    let created = post::create_post(
        &post_author,
        &mut posts,
        CreatePostRequest {
            title: "discussed".to_string(),
            content_markdown: "body".to_string(),
            category: "tech".to_string(),
            is_published: Some(true),
            cover_url: None,
        },
        NOW,
    )
    .unwrap();
    let commenter = claims_for(2, "bob", "user");
    let c = comment::create_comment(
        &commenter,
        &mut comments,
        CreateCommentRequest {
            content: "my take".to_string(),
            post_id: created.id,
            parent_id: None,
        },
        NOW + 1,
    )
    .unwrap();

    // a stranger may not edit or delete
    let stranger = claims_for(3, "mallory", "user");
    assert!(matches!(
        comment::update_comment(
            &stranger,
            &mut comments,
            c.id,
            blog_engine::handler::idl::UpdateCommentRequest {
                content: "defaced".to_string(),
            },
        ),
        Err(CustomError::Forbidden(_))
    ));
    assert!(matches!(
        comment::delete_comment(&stranger, &mut comments, &posts, c.id),
        Err(CustomError::Forbidden(_))
    ));
    assert_eq!(
        comment::get_comment_by_id(&comments, c.id).unwrap().content,
        "my take"
    );

    // the post's author may delete a comment under their post
    let deleted = comment::delete_comment(&post_author, &mut comments, &posts, c.id);
    assert!(deleted.is_ok());
}

#[test]
fn comment_listing_requires_existing_post() {
    let posts = PostRepository::new();
    let comments = CommentRepository::new();
    let result = comment::get_comments_by_post_id(
        &comments,
        &posts,
        42,
        CommentListRequest {
            post_id: 42,
            page: None,
            limit: None,
        },
    );
    assert!(matches!(result, Err(CustomError::NotFound(_))));
}

#[test]
fn favorite_toggle_through_handler() {
    let mut posts = PostRepository::new();
    let mut favorites = FavoriteRepository::new();
    let author = claims_for(1, "alice", "user");
    let created = post::create_post(
        &author,
        &mut posts,
        CreatePostRequest {
            title: "likable".to_string(),
            content_markdown: "body".to_string(),
            category: "tech".to_string(),
            is_published: Some(true),
            cover_url: None,
        },
        NOW,
    )
    .unwrap();

    let fan = claims_for(2, "bob", "user");
    // toggling a missing post fails
    let missing = favorite::toggle_post_favorite(
        &fan,
        &posts,
        &mut favorites,
        ToggleFavoriteRequest { post_id: 999 },
        NOW + 1,
    );
    assert!(matches!(missing, Err(CustomError::NotFound(_))));

    let on = favorite::toggle_post_favorite(
        &fan,
        &posts,
        &mut favorites,
        ToggleFavoriteRequest { post_id: created.id },
        NOW + 2,
    )
    .unwrap();
    assert!(on.success);
    assert!(favorites.is_favorited(2, created.id).unwrap());

    let listed = favorite::get_my_favorite_posts(&fan, &posts, &favorites, empty_list_request())
        .unwrap();
    assert_eq!(listed.total_favorites, 1);
    assert_eq!(listed.favorites[0].title, "likable");

    let off = favorite::toggle_post_favorite(
        &fan,
        &posts,
        &mut favorites,
        ToggleFavoriteRequest { post_id: created.id },
        NOW + 3,
    )
    .unwrap();
    assert!(off.success);
    assert!(!favorites.is_favorited(2, created.id).unwrap());
}

#[test]
fn logout_is_stateless() {
    let resp = user::logout_user().unwrap();
    assert!(resp.success);
}

#[test]
fn error_status_codes() {
    assert_eq!(CustomError::InternalServerError("m".to_string()).http_status(), 500);
    assert_eq!(CustomError::BadRequest("m".to_string()).http_status(), 400);
    assert_eq!(CustomError::Unauthorized("m".to_string()).http_status(), 401);
    assert_eq!(CustomError::Forbidden("m".to_string()).http_status(), 403);
    assert_eq!(CustomError::NotFound("m".to_string()).http_status(), 404);
    assert_eq!(CustomError::Conflict("m".to_string()).http_status(), 409);
    assert_eq!(CustomError::BcryptError("m".to_string()).http_status(), 500);
    assert_eq!(CustomError::JwtError("m".to_string()).http_status(), 401);
    assert_eq!(CustomError::ValidationError("m".to_string()).http_status(), 400);
    let e = CustomError::NotFound("gone".to_string());
    assert_eq!(e.message(), "gone");
}

#[test]
fn pagination_defaults() {
    assert_eq!(blog_engine::handler::idl::default_page(), Some(1));
    assert_eq!(blog_engine::handler::idl::default_limit(), Some(10));
    assert_eq!(blog_engine::handler::idl::default_per_page(), 10);
    assert_eq!(blog_engine::pagination::num_pages(0, 10), 0);
    assert_eq!(blog_engine::pagination::num_pages(1, 10), 1);
    assert_eq!(blog_engine::pagination::num_pages(10, 10), 1);
    assert_eq!(blog_engine::pagination::num_pages(11, 10), 2);
}

#[test]
fn validate_role_accepts_only_the_two_roles() {
    assert!(blog_engine::handler::idl::validate_role("user").is_ok());
    assert!(blog_engine::handler::idl::validate_role("admin").is_ok());
    assert!(blog_engine::handler::idl::validate_role("root").is_err());
    assert!(blog_engine::handler::idl::validate_role("").is_err());
}

#[test]
fn parse_and_render_ids() {
    assert_eq!(blog_engine::numstr::parse_user_id("0"), Some(0));
    assert_eq!(blog_engine::numstr::parse_user_id("123"), Some(123));
    assert_eq!(blog_engine::numstr::parse_user_id("2147483647"), Some(i32::MAX));
    assert_eq!(blog_engine::numstr::parse_user_id("2147483648"), None);
    assert_eq!(blog_engine::numstr::parse_user_id(""), None);
    assert_eq!(blog_engine::numstr::parse_user_id("12a"), None);
    assert_eq!(blog_engine::numstr::parse_user_id("-5"), None);
    assert_eq!(blog_engine::numstr::i32_to_string(0), "0");
    assert_eq!(blog_engine::numstr::i32_to_string(907), "907");
    assert_eq!(blog_engine::numstr::u64_to_string(18446744073709551615), "18446744073709551615");
}

#[test]
fn login_failure_message_does_not_reveal_accounts() {
    let cfg = config();
    let mut repo = UserRepository::new();
    register(&mut repo, "alice", "alice@x.com");
    let unknown_user = user::login_user(
        &cfg,
        &repo,
        LoginRequest {
            username_or_email: "nobody".to_string(),
            password: "secret1".to_string(),
        },
        NOW,
    );
    let wrong_password = user::login_user(
        &cfg,
        &repo,
        LoginRequest {
            username_or_email: "alice".to_string(),
            password: "wrong-password".to_string(),
        },
        NOW,
    );
    match (unknown_user, wrong_password) {
        (Err(CustomError::Unauthorized(m1)), Err(CustomError::Unauthorized(m2))) => {
            assert_eq!(m1, m2);
        }
        _ => panic!("expected Unauthorized from both failures"),
    }
}
