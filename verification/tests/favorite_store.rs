//! Tests of the favorite store: the toggle, the existence check, and the
//! paginated join against the post store.

use blog_engine::database::favorite::FavoriteRepository;
use blog_engine::database::post::PostRepository;
use blog_engine::handler::idl::CreatePostRequest;

fn create_test_post(posts: &mut PostRepository, title: &str, now: i64) -> i32 {
    let req = CreatePostRequest {
        title: title.to_string(),
        content_markdown: format!("content of {}", title),
        category: "tech".to_string(),
        is_published: Some(true),
        cover_url: None,
    };
    posts.create_post(req, 1, now).unwrap().id
}

#[test]
fn test_toggle_favorite_add() {
    let mut repo = FavoriteRepository::new();
    let result = repo.toggle_favorite(1, 7, 1_000);
    assert!(result.is_ok());
    assert_eq!(result.unwrap(), true);
    let is_favorited = repo.is_favorited(1, 7).unwrap();
    assert!(is_favorited);
}

#[test]
fn test_toggle_favorite_remove() {
    let mut repo = FavoriteRepository::new();
    repo.toggle_favorite(1, 7, 1_000).unwrap();
    assert!(repo.is_favorited(1, 7).unwrap());
    let result = repo.toggle_favorite(1, 7, 1_010);
    assert!(result.is_ok());
    assert_eq!(result.unwrap(), false);
    let is_favorited = repo.is_favorited(1, 7).unwrap();
    assert!(!is_favorited);
}

#[test]
fn test_toggle_favorite_multiple_times() {
    let mut repo = FavoriteRepository::new();
    let result1 = repo.toggle_favorite(1, 7, 1_000).unwrap();
    assert_eq!(result1, true);
    let result2 = repo.toggle_favorite(1, 7, 1_010).unwrap();
    assert_eq!(result2, false);
    let result3 = repo.toggle_favorite(1, 7, 1_020).unwrap();
    assert_eq!(result3, true);
    let result4 = repo.toggle_favorite(1, 7, 1_030).unwrap();
    assert_eq!(result4, false);
    assert!(!repo.is_favorited(1, 7).unwrap());
}

#[test]
fn test_is_favorited_true() {
    let mut repo = FavoriteRepository::new();
    repo.toggle_favorite(3, 9, 1_000).unwrap();
    let result = repo.is_favorited(3, 9);
    assert!(result.is_ok());
    assert!(result.unwrap());
}

#[test]
fn test_is_favorited_false() {
    let repo = FavoriteRepository::new();
    let result = repo.is_favorited(3, 9);
    assert!(result.is_ok());
    assert!(!result.unwrap());
}

#[test]
fn test_multiple_users_same_post() {
    let mut repo = FavoriteRepository::new();
    for user in 1..=3 {
        let result = repo.toggle_favorite(user, 7, 1_000 + user as i64).unwrap();
        assert_eq!(result, true);
        assert!(repo.is_favorited(user, 7).unwrap());
    }
    for user in 1..=3 {
        assert!(repo.is_favorited(user, 7).unwrap());
    }
    let result = repo.toggle_favorite(1, 7, 1_010).unwrap();
    assert_eq!(result, false);
    assert!(!repo.is_favorited(1, 7).unwrap());
    assert!(repo.is_favorited(2, 7).unwrap());
    assert!(repo.is_favorited(3, 7).unwrap());
}

#[test]
fn test_single_user_multiple_posts() {
    let mut repo = FavoriteRepository::new();
    for post in 1..=3 {
        let result = repo.toggle_favorite(1, post, 1_000 + post as i64).unwrap();
        assert_eq!(result, true);
        assert!(repo.is_favorited(1, post).unwrap());
    }
    for post in 1..=3 {
        assert!(repo.is_favorited(1, post).unwrap());
    }
    let result = repo.toggle_favorite(1, 2, 1_010).unwrap();
    assert_eq!(result, false);
    assert!(repo.is_favorited(1, 1).unwrap());
    assert!(!repo.is_favorited(1, 2).unwrap());
    assert!(repo.is_favorited(1, 3).unwrap());
}

#[test]
fn test_get_paginated_user_favorites() {
    let mut posts = PostRepository::new();
    let mut repo = FavoriteRepository::new();
    for i in 0..5 {
        let post_id = create_test_post(&mut posts, &format!("favorited post {}", i), 1_000 + i);
        repo.toggle_favorite(1, post_id, 2_000 + i).unwrap();
    }
    let result = repo.get_paginated_user_favorites(&posts, 1, 1, 3);
    assert!(result.is_ok());
    let (listed, total_pages, current_page, total_favorites) = result.unwrap();
    assert_eq!(listed.len(), 3);
    assert_eq!(current_page, 1);
    assert_eq!(total_favorites, 5);
    assert_eq!(total_pages, 2);
    for post in &listed {
        assert!(post.title.contains("favorited post"));
    }
}

#[test]
fn test_get_paginated_user_favorites_second_page() {
    let mut posts = PostRepository::new();
    let mut repo = FavoriteRepository::new();
    for i in 0..5 {
        let post_id = create_test_post(&mut posts, &format!("favorited post {}", i), 1_000 + i);
        repo.toggle_favorite(1, post_id, 2_000 + i).unwrap();
    }
    let result = repo.get_paginated_user_favorites(&posts, 1, 2, 3);
    assert!(result.is_ok());
    let (listed, total_pages, current_page, total_favorites) = result.unwrap();
    assert_eq!(listed.len(), 2);
    assert_eq!(current_page, 2);
    assert_eq!(total_favorites, 5);
    assert_eq!(total_pages, 2);
}

#[test]
fn test_get_paginated_user_favorites_empty() {
    let posts = PostRepository::new();
    let repo = FavoriteRepository::new();
    let result = repo.get_paginated_user_favorites(&posts, 1, 1, 10);
    assert!(result.is_ok());
    let (listed, total_pages, current_page, total_favorites) = result.unwrap();
    assert_eq!(listed.len(), 0);
    assert_eq!(current_page, 1);
    assert_eq!(total_favorites, 0);
    assert_eq!(total_pages, 0);
}

#[test]
fn test_get_paginated_user_favorites_ordering() {
    let mut posts = PostRepository::new();
    let mut repo = FavoriteRepository::new();
    for i in 1..=3 {
        let post_id = create_test_post(&mut posts, &format!("post {}", i), 1_000 + i);
        repo.toggle_favorite(1, post_id, 2_000 + i).unwrap();
    }
    let result = repo.get_paginated_user_favorites(&posts, 1, 1, 10);
    assert!(result.is_ok());
    let (listed, _, _, _) = result.unwrap();
    assert_eq!(listed.len(), 3);
    let titles: Vec<String> = listed.iter().map(|p| p.title.clone()).collect();
    assert!(titles.contains(&"post 1".to_string()));
    assert!(titles.contains(&"post 2".to_string()));
    assert!(titles.contains(&"post 3".to_string()));
    // most recently favorited first
    assert_eq!(listed[0].title, "post 3");
    assert_eq!(listed[2].title, "post 1");
}

#[test]
fn test_favorite_timestamps() {
    let mut posts = PostRepository::new();
    let mut repo = FavoriteRepository::new();
    let post_id = create_test_post(&mut posts, "timestamp test post", 1_000);
    repo.toggle_favorite(1, post_id, 2_000).unwrap();
    let result = repo.get_paginated_user_favorites(&posts, 1, 1, 10);
    assert!(result.is_ok());
    let (listed, _, _, _) = result.unwrap();
    assert_eq!(listed.len(), 1);
    // the listing carries the post's own creation time
    assert_eq!(listed[0].created_at, 1_000);
}

#[test]
fn test_favorite_different_users_different_posts() {
    let mut posts = PostRepository::new();
    let mut repo = FavoriteRepository::new();
    let mut ids = Vec::new();
    for i in 1..=4 {
        ids.push(create_test_post(&mut posts, &format!("post {}", i), 1_000 + i));
    }
    repo.toggle_favorite(1, ids[0], 2_001).unwrap();
    repo.toggle_favorite(1, ids[1], 2_002).unwrap();
    repo.toggle_favorite(2, ids[1], 2_003).unwrap();
    repo.toggle_favorite(2, ids[2], 2_004).unwrap();
    repo.toggle_favorite(3, ids[2], 2_005).unwrap();
    repo.toggle_favorite(3, ids[3], 2_006).unwrap();

    let (posts1, _, _, total1) = repo.get_paginated_user_favorites(&posts, 1, 1, 10).unwrap();
    assert_eq!(total1, 2);
    let titles1: Vec<String> = posts1.iter().map(|p| p.title.clone()).collect();
    assert!(titles1.contains(&"post 1".to_string()));
    assert!(titles1.contains(&"post 2".to_string()));

    let (posts2, _, _, total2) = repo.get_paginated_user_favorites(&posts, 2, 1, 10).unwrap();
    assert_eq!(total2, 2);
    let titles2: Vec<String> = posts2.iter().map(|p| p.title.clone()).collect();
    assert!(titles2.contains(&"post 2".to_string()));
    assert!(titles2.contains(&"post 3".to_string()));

    let (posts3, _, _, total3) = repo.get_paginated_user_favorites(&posts, 3, 1, 10).unwrap();
    assert_eq!(total3, 2);
    let titles3: Vec<String> = posts3.iter().map(|p| p.title.clone()).collect();
    assert!(titles3.contains(&"post 3".to_string()));
    assert!(titles3.contains(&"post 4".to_string()));
}

#[test]
fn test_favorite_edge_cases() {
    let mut posts = PostRepository::new();
    let repo = FavoriteRepository::new();
    // an unknown post is simply not favorited
    let result = repo.is_favorited(1, 999);
    assert!(result.is_ok());
    assert!(!result.unwrap());
    // an unknown user has no favorites
    create_test_post(&mut posts, "a post", 1_000);
    let result = repo.is_favorited(999, 1);
    assert!(result.is_ok());
    assert!(!result.unwrap());
}

#[test]
fn test_dangling_favorite_counted_but_not_listed() {
    let mut posts = PostRepository::new();
    let mut repo = FavoriteRepository::new();
    let keep = create_test_post(&mut posts, "kept post", 1_000);
    let gone = create_test_post(&mut posts, "doomed post", 1_001);
    repo.toggle_favorite(1, keep, 2_000).unwrap();
    repo.toggle_favorite(1, gone, 2_001).unwrap();
    posts.delete_post(gone).unwrap();
    // the count reflects the favorite rows; the dangling row yields no item
    let (listed, _, _, total) = repo.get_paginated_user_favorites(&posts, 1, 1, 10).unwrap();
    assert_eq!(total, 2);
    assert_eq!(listed.len(), 1);
    assert_eq!(listed[0].title, "kept post");
}
