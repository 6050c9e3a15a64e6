//! Tests of the post store: creation, lookup, partial updates, deletion,
//! filtered pagination and the view counter.

use blog_engine::database::post::Post;
use blog_engine::database::post::PostRepository;
use blog_engine::error::CustomError;
use blog_engine::handler::idl::CreatePostRequest;
use blog_engine::handler::idl::PostListRequest;
use blog_engine::handler::idl::UpdatePostRequest;

fn make_request(title: &str, category: &str, published: bool) -> CreatePostRequest {
    CreatePostRequest {
        title: title.to_string(),
        content_markdown: format!("content of {}", title),
        category: category.to_string(),
        is_published: Some(published),
        cover_url: None,
    }
}

fn create_test_post(repo: &mut PostRepository, now: i64) -> Post {
    let req = CreatePostRequest {
        title: "test title".to_string(),
        content_markdown: "test content".to_string(),
        category: "life".to_string(),
        is_published: None,
        cover_url: None,
    };
    repo.create_post(req, 1, now).unwrap()
}

fn list_request(page: u64, limit: u64) -> PostListRequest {
    PostListRequest {
        page: Some(page),
        limit: Some(limit),
        category: None,
        query: None,
        published_only: None,
        author_id: None,
    }
}

#[test]
fn test_create_post() {
    let mut repo = PostRepository::new();
    let req = CreatePostRequest {
        title: "new post title".to_string(),
        content_markdown: "some markdown".to_string(),
        category: "life".to_string(),
        is_published: None,
        cover_url: None,
    };
    let result = repo.create_post(req, 1, 1_000);
    assert!(result.is_ok());
    let post = result.unwrap();
    assert_eq!(post.title, "new post title");
    assert_eq!(post.category, "life");
    assert_eq!(post.author_id, 1);
    assert!(!post.is_published);
    assert_eq!(post.view_count, 0);
    assert!(post.cover_url.is_none());
    assert!(post.id > 0);
}

#[test]
fn test_create_post_published() {
    let mut repo = PostRepository::new();
    let req = CreatePostRequest {
        title: "published post".to_string(),
        content_markdown: "some markdown".to_string(),
        category: "tech".to_string(),
        is_published: Some(true),
        cover_url: Some("https://example.com/published.jpg".to_string()),
    };
    let result = repo.create_post(req, 1, 1_000);
    assert!(result.is_ok());
    let post = result.unwrap();
    assert!(post.is_published);
    assert_eq!(
        post.cover_url,
        Some("https://example.com/published.jpg".to_string())
    );
}

#[test]
fn test_get_post_by_id() {
    let mut repo = PostRepository::new();
    let created_post = create_test_post(&mut repo, 1_000);
    let result = repo.get_post_by_id(created_post.id);
    assert!(result.is_ok());
    let found_post = result.unwrap();
    assert!(found_post.is_some());
    let post = found_post.unwrap();
    assert_eq!(post.id, created_post.id);
    assert_eq!(post.title, created_post.title);
    assert_eq!(post.content_markdown, created_post.content_markdown);
}

#[test]
fn test_get_post_by_id_not_found() {
    let repo = PostRepository::new();
    let result = repo.get_post_by_id(999);
    assert!(result.is_ok());
    assert!(result.unwrap().is_none());
}

#[test]
fn test_update_post() {
    let mut repo = PostRepository::new();
    let created_post = create_test_post(&mut repo, 1_000);
    let update_req = UpdatePostRequest {
        title: Some("updated title".to_string()),
        content_markdown: None,
        category: Some("updated category".to_string()),
        is_published: None,
        cover_url: Some("https://example.com/updated.jpg".to_string()),
    };
    let result = repo.update_post(created_post.id, update_req, 1_010);
    assert!(result.is_ok());
    let updated_post = result.unwrap();
    assert_eq!(updated_post.title, "updated title");
    assert_eq!(updated_post.category, "updated category");
    assert!(!updated_post.is_published);
    assert_eq!(
        updated_post.cover_url,
        Some("https://example.com/updated.jpg".to_string())
    );
    assert!(updated_post.updated_at > created_post.updated_at);
}

#[test]
fn test_update_post_partial() {
    let mut repo = PostRepository::new();
    let created_post = create_test_post(&mut repo, 1_000);
    let update_req = UpdatePostRequest {
        title: Some("partially updated title".to_string()),
        content_markdown: None,
        category: None,
        is_published: None,
        cover_url: None,
    };
    let result = repo.update_post(created_post.id, update_req, 1_010);
    assert!(result.is_ok());
    let updated_post = result.unwrap();
    assert_eq!(updated_post.title, "partially updated title");
    assert_eq!(updated_post.content_markdown, created_post.content_markdown);
    assert_eq!(updated_post.category, created_post.category);
    assert_eq!(updated_post.is_published, created_post.is_published);
}

#[test]
fn test_update_post_not_found() {
    let mut repo = PostRepository::new();
    let update_req = UpdatePostRequest {
        title: Some("does not matter".to_string()),
        content_markdown: None,
        category: None,
        is_published: None,
        cover_url: None,
    };
    let result = repo.update_post(999, update_req, 1_000);
    assert!(result.is_err());
    match result.unwrap_err() {
        CustomError::NotFound(msg) => {
            assert!(msg.contains("not found"));
        }
        _ => panic!("Expected NotFound error"),
    }
}

#[test]
fn test_delete_post() {
    let mut repo = PostRepository::new();
    let created_post = create_test_post(&mut repo, 1_000);
    let result = repo.delete_post(created_post.id);
    assert!(result.is_ok());
    let found_post = repo.get_post_by_id(created_post.id).unwrap();
    assert!(found_post.is_none());
}

#[test]
fn test_delete_post_not_found() {
    let mut repo = PostRepository::new();
    let result = repo.delete_post(999);
    assert!(result.is_err());
    match result.unwrap_err() {
        CustomError::NotFound(msg) => {
            assert!(msg.contains("not found"));
        }
        _ => panic!("Expected NotFound error"),
    }
}

#[test]
fn test_delete_posts_by_ids() {
    let mut repo = PostRepository::new();
    let post1 = repo.create_post(make_request("post 1", "tech", true), 1, 1_000).unwrap();
    let post2 = repo.create_post(make_request("post 2", "tech", true), 1, 1_001).unwrap();
    let post3 = repo.create_post(make_request("post 3", "tech", true), 1, 1_002).unwrap();
    let result = repo.delete_posts_by_ids(vec![post1.id, post2.id]);
    assert!(result.is_ok());
    assert_eq!(result.unwrap(), 2);
    assert!(repo.get_post_by_id(post1.id).unwrap().is_none());
    assert!(repo.get_post_by_id(post2.id).unwrap().is_none());
    assert!(repo.get_post_by_id(post3.id).unwrap().is_some());
}

#[test]
fn test_get_paginated_posts() {
    let mut repo = PostRepository::new();
    for i in 0..5 {
        repo.create_post(
            make_request(&format!("post {}", i), "tech", true),
            1,
            1_000 + i,
        )
        .unwrap();
    }
    let result = repo.get_paginated_posts(list_request(1, 3));
    assert!(result.is_ok());
    let (posts, total_pages, current_page, total_posts) = result.unwrap();
    assert_eq!(posts.len(), 3);
    assert_eq!(current_page, 1);
    assert_eq!(total_posts, 5);
    assert_eq!(total_pages, 2);
    // newest first
    assert_eq!(posts[0].title, "post 4");
    assert_eq!(posts[1].title, "post 3");
    assert_eq!(posts[2].title, "post 2");
}

#[test]
fn test_get_paginated_posts_with_category_filter() {
    let mut repo = PostRepository::new();
    repo.create_post(make_request("tech post 1", "tech", true), 1, 1_000).unwrap();
    repo.create_post(make_request("life post", "life", true), 1, 1_001).unwrap();
    repo.create_post(make_request("tech post 2", "tech", true), 1, 1_002).unwrap();
    let req = PostListRequest {
        page: Some(1),
        limit: Some(10),
        category: Some("tech".to_string()),
        query: None,
        published_only: None,
        author_id: None,
    };
    let result = repo.get_paginated_posts(req);
    assert!(result.is_ok());
    let (posts, _, _, total_posts) = result.unwrap();
    assert_eq!(posts.len(), 2);
    assert_eq!(total_posts, 2);
    for post in &posts {
        assert_eq!(post.category, "tech");
    }
}

#[test]
fn test_get_paginated_posts_with_search_query() {
    let mut repo = PostRepository::new();
    repo.create_post(make_request("Learning Rust", "tech", true), 1, 1_000).unwrap();
    repo.create_post(make_request("Gardening", "life", true), 1, 1_001).unwrap();
    repo.create_post(make_request("Cooking", "life", true), 1, 1_002).unwrap();
    let req = PostListRequest {
        page: Some(1),
        limit: Some(10),
        category: None,
        query: Some("Rust".to_string()),
        published_only: None,
        author_id: None,
    };
    let result = repo.get_paginated_posts(req);
    assert!(result.is_ok());
    let (posts, _, _, total_posts) = result.unwrap();
    assert_eq!(posts.len(), 1);
    assert_eq!(total_posts, 1);
    assert!(posts[0].title.contains("Rust"));
}

#[test]
fn test_search_matches_content_too() {
    let mut repo = PostRepository::new();
    let mut req = make_request("Plain title", "tech", true);
    req.content_markdown = "the needle is hidden in here".to_string();
    repo.create_post(req, 1, 1_000).unwrap();
    let list_req = PostListRequest {
        page: Some(1),
        limit: Some(10),
        category: None,
        query: Some("needle".to_string()),
        published_only: None,
        author_id: None,
    };
    let (posts, _, _, total) = repo.get_paginated_posts(list_req).unwrap();
    assert_eq!(total, 1);
    assert_eq!(posts[0].title, "Plain title");

    let miss = PostListRequest {
        page: Some(1),
        limit: Some(10),
        category: None,
        query: Some("haystack".to_string()),
        published_only: None,
        author_id: None,
    };
    let (_, _, _, total_miss) = repo.get_paginated_posts(miss).unwrap();
    assert_eq!(total_miss, 0);
}

#[test]
fn test_published_only_filter() {
    let mut repo = PostRepository::new();
    repo.create_post(make_request("draft", "tech", false), 1, 1_000).unwrap();
    repo.create_post(make_request("public", "tech", true), 1, 1_001).unwrap();

    // the default hides drafts
    let (posts, _, _, total) = repo.get_paginated_posts(list_request(1, 10)).unwrap();
    assert_eq!(total, 1);
    assert_eq!(posts[0].title, "public");

    // asking for everything shows the draft too
    let all_req = PostListRequest {
        page: Some(1),
        limit: Some(10),
        category: None,
        query: None,
        published_only: Some(false),
        author_id: None,
    };
    let (_, _, _, total_all) = repo.get_paginated_posts(all_req).unwrap();
    assert_eq!(total_all, 2);
}

#[test]
fn test_increment_view_count() {
    let mut repo = PostRepository::new();
    let created_post = create_test_post(&mut repo, 1_000);
    assert_eq!(created_post.view_count, 0);
    let result = repo.increment_view_count(created_post.id);
    assert!(result.is_ok());
    let updated_post = repo.get_post_by_id(created_post.id).unwrap().unwrap();
    assert_eq!(updated_post.view_count, 1);
    repo.increment_view_count(created_post.id).unwrap();
    let updated_post = repo.get_post_by_id(created_post.id).unwrap().unwrap();
    assert_eq!(updated_post.view_count, 2);
}

#[test]
fn test_increment_view_count_not_found() {
    let mut repo = PostRepository::new();
    let result = repo.increment_view_count(999);
    assert!(result.is_err());
    match result.unwrap_err() {
        CustomError::NotFound(msg) => {
            assert!(msg.contains("not found"));
        }
        _ => panic!("Expected NotFound error"),
    }
}

#[test]
fn test_post_timestamps() {
    let mut repo = PostRepository::new();
    let created_post = create_test_post(&mut repo, 1_000);
    assert_eq!(created_post.created_at, 1_000);
    assert_eq!(created_post.updated_at, 1_000);
    let update_req = UpdatePostRequest {
        title: Some("timestamp test".to_string()),
        content_markdown: None,
        category: None,
        is_published: None,
        cover_url: None,
    };
    let updated_post = repo.update_post(created_post.id, update_req, 1_010).unwrap();
    assert_eq!(updated_post.created_at, created_post.created_at);
    assert_eq!(updated_post.updated_at, 1_010);
    assert!(updated_post.updated_at > created_post.updated_at);
}

#[test]
fn test_zero_page_size_is_rejected() {
    let repo = PostRepository::new();
    let result = repo.get_paginated_posts(list_request(1, 0));
    assert!(matches!(result, Err(CustomError::BadRequest(_))));
}

#[test]
fn pages_partition_the_listing() {
    let mut repo = PostRepository::new();
    for i in 0..7 {
        repo.create_post(
            make_request(&format!("post {}", i), "tech", true),
            1,
            1_000 + i,
        )
        .unwrap();
    }
    let mut seen: Vec<i32> = Vec::new();
    let (_, total_pages, _, total) = repo.get_paginated_posts(list_request(1, 3)).unwrap();
    assert_eq!(total, 7);
    assert_eq!(total_pages, 3);
    for page in 1..=total_pages {
        let (items, _, _, _) = repo.get_paginated_posts(list_request(page, 3)).unwrap();
        for item in &items {
            seen.push(item.id);
        }
    }
    // every post exactly once, in the listing's order (newest first)
    assert_eq!(seen.len(), 7);
    let mut unique = seen.clone();
    unique.sort();
    unique.dedup();
    assert_eq!(unique.len(), 7);
    for w in seen.windows(2) {
        assert!(w[0] > w[1]);
    }
    // a page past the end is empty
    let (beyond, _, _, _) = repo.get_paginated_posts(list_request(4, 3)).unwrap();
    assert!(beyond.is_empty());
}
