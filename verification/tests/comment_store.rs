//! Tests of the comment store: creation, nesting, updates, cascade
//! deletion and the per-post listing.

use blog_engine::database::comment::Comment;
use blog_engine::database::comment::CommentRepository;
use blog_engine::error::CustomError;
use blog_engine::handler::idl::CreateCommentRequest;
use blog_engine::handler::idl::UpdateCommentRequest;

fn create_test_comment(
    repo: &mut CommentRepository,
    post_id: i32,
    user_id: i32,
    now: i64,
) -> Result<Comment, CustomError> {
    let req = CreateCommentRequest {
        content: "a fresh comment".to_string(),
        post_id,
        parent_id: None,
    };
    repo.create_comment(req, user_id, now)
}

fn create_child_comment(
    repo: &mut CommentRepository,
    post_id: i32,
    user_id: i32,
    parent_id: i32,
    now: i64,
) -> Result<Comment, CustomError> {
    let req = CreateCommentRequest {
        content: "a reply".to_string(),
        post_id,
        parent_id: Some(parent_id),
    };
    repo.create_comment(req, user_id, now)
}

#[test]
fn test_create_comment() {
    let mut repo = CommentRepository::new();
    let req = CreateCommentRequest {
        content: "this is a new comment".to_string(),
        post_id: 1,
        parent_id: None,
    };
    let result = repo.create_comment(req, 1, 1_000);
    assert!(result.is_ok());
    let comment = result.unwrap();
    assert_eq!(comment.content, "this is a new comment");
    assert_eq!(comment.post_id, 1);
    assert_eq!(comment.user_id, 1);
    assert!(comment.parent_id.is_none());
    assert!(comment.id > 0);
}

#[test]
fn test_create_nested_comment() {
    let mut repo = CommentRepository::new();
    let parent_comment = create_test_comment(&mut repo, 1, 1, 1_000).unwrap();
    let req = CreateCommentRequest {
        content: "this is a reply".to_string(),
        post_id: 1,
        parent_id: Some(parent_comment.id),
    };
    let result = repo.create_comment(req, 2, 1_010);
    assert!(result.is_ok());
    let child_comment = result.unwrap();
    assert_eq!(child_comment.content, "this is a reply");
    assert_eq!(child_comment.post_id, 1);
    assert_eq!(child_comment.user_id, 2);
    assert_eq!(child_comment.parent_id, Some(parent_comment.id));
}

#[test]
fn test_create_comment_missing_parent() {
    let mut repo = CommentRepository::new();
    let req = CreateCommentRequest {
        content: "orphan reply".to_string(),
        post_id: 1,
        parent_id: Some(999),
    };
    let result = repo.create_comment(req, 1, 1_000);
    assert!(matches!(result, Err(CustomError::NotFound(_))));
}

#[test]
fn test_get_comment_by_id() {
    let mut repo = CommentRepository::new();
    let created_comment = create_test_comment(&mut repo, 1, 1, 1_000).unwrap();
    let result = repo.get_comment_by_id(created_comment.id);
    assert!(result.is_ok());
    let found_comment = result.unwrap();
    assert!(found_comment.is_some());
    let comment = found_comment.unwrap();
    assert_eq!(comment.id, created_comment.id);
    assert_eq!(comment.content, created_comment.content);
    assert_eq!(comment.post_id, created_comment.post_id);
    assert_eq!(comment.user_id, created_comment.user_id);
}

#[test]
fn test_get_comment_by_id_not_found() {
    let repo = CommentRepository::new();
    let result = repo.get_comment_by_id(999);
    assert!(result.is_ok());
    assert!(result.unwrap().is_none());
}

#[test]
fn test_update_comment() {
    let mut repo = CommentRepository::new();
    let created_comment = create_test_comment(&mut repo, 1, 1, 1_000).unwrap();
    let update_req = UpdateCommentRequest {
        content: "this is the updated content".to_string(),
    };
    let result = repo.update_comment(created_comment.id, update_req);
    assert!(result.is_ok());
    let updated_comment = result.unwrap();
    assert_eq!(updated_comment.content, "this is the updated content");
    assert_eq!(updated_comment.post_id, created_comment.post_id);
    assert_eq!(updated_comment.user_id, created_comment.user_id);
    assert_eq!(updated_comment.parent_id, created_comment.parent_id);
}

#[test]
fn test_update_comment_not_found() {
    let mut repo = CommentRepository::new();
    let update_req = UpdateCommentRequest {
        content: "does not matter".to_string(),
    };
    let result = repo.update_comment(999, update_req);
    assert!(result.is_err());
    match result.unwrap_err() {
        CustomError::NotFound(msg) => {
            assert!(msg.contains("not found"));
        }
        _ => panic!("Expected NotFound error"),
    }
}

#[test]
fn test_delete_comment() {
    let mut repo = CommentRepository::new();
    let created_comment = create_test_comment(&mut repo, 1, 1, 1_000).unwrap();
    let result = repo.delete_comment(created_comment.id);
    assert!(result.is_ok());
    let found_comment = repo.get_comment_by_id(created_comment.id).unwrap();
    assert!(found_comment.is_none());
}

#[test]
fn test_delete_comment_not_found() {
    let mut repo = CommentRepository::new();
    let result = repo.delete_comment(999);
    assert!(result.is_err());
    match result.unwrap_err() {
        CustomError::NotFound(msg) => {
            assert!(msg.contains("not found"));
        }
        _ => panic!("Expected NotFound error"),
    }
}

#[test]
fn test_delete_parent_comment_with_children() {
    let mut repo = CommentRepository::new();
    let parent_comment = create_test_comment(&mut repo, 1, 1, 1_000).unwrap();
    let child_comment =
        create_child_comment(&mut repo, 1, 2, parent_comment.id, 1_010).unwrap();
    let result = repo.delete_comment(parent_comment.id);
    assert!(result.is_ok());
    let found_parent = repo.get_comment_by_id(parent_comment.id).unwrap();
    assert!(found_parent.is_none());
    // the cascade policy deletes the whole reply subtree
    let found_child = repo.get_comment_by_id(child_comment.id).unwrap();
    assert!(found_child.is_none());
}

#[test]
fn test_cascade_deletes_grandchildren() {
    let mut repo = CommentRepository::new();
    let parent = create_test_comment(&mut repo, 1, 1, 1_000).unwrap();
    let child = create_child_comment(&mut repo, 1, 2, parent.id, 1_010).unwrap();
    let grandchild = create_child_comment(&mut repo, 1, 3, child.id, 1_020).unwrap();
    let sibling = create_test_comment(&mut repo, 1, 4, 1_030).unwrap();
    repo.delete_comment(parent.id).unwrap();
    assert!(repo.get_comment_by_id(parent.id).unwrap().is_none());
    assert!(repo.get_comment_by_id(child.id).unwrap().is_none());
    assert!(repo.get_comment_by_id(grandchild.id).unwrap().is_none());
    assert!(repo.get_comment_by_id(sibling.id).unwrap().is_some());
}

#[test]
fn test_get_paginated_comments_by_post_id() {
    let mut repo = CommentRepository::new();
    for i in 0..5 {
        create_test_comment(&mut repo, 1, 1, 1_000 + i).unwrap();
    }
    // comments on another post do not count
    create_test_comment(&mut repo, 2, 1, 2_000).unwrap();
    let result = repo.get_paginated_comments_by_post_id(1, 1, 3);
    assert!(result.is_ok());
    let (comments, total_pages, current_page, total_comments) = result.unwrap();
    assert_eq!(comments.len(), 3);
    assert_eq!(current_page, 1);
    assert_eq!(total_comments, 5);
    assert_eq!(total_pages, 2);
    for comment in &comments {
        assert_eq!(comment.post_id, 1);
    }
}

#[test]
fn test_get_paginated_comments_second_page() {
    let mut repo = CommentRepository::new();
    for i in 0..5 {
        create_test_comment(&mut repo, 1, 1, 1_000 + i).unwrap();
    }
    let result = repo.get_paginated_comments_by_post_id(1, 2, 3);
    assert!(result.is_ok());
    let (comments, total_pages, current_page, total_comments) = result.unwrap();
    assert_eq!(comments.len(), 2);
    assert_eq!(current_page, 2);
    assert_eq!(total_comments, 5);
    assert_eq!(total_pages, 2);
}

#[test]
fn test_get_paginated_comments_empty_post() {
    let repo = CommentRepository::new();
    let result = repo.get_paginated_comments_by_post_id(42, 1, 10);
    assert!(result.is_ok());
    let (comments, total_pages, current_page, total_comments) = result.unwrap();
    assert_eq!(comments.len(), 0);
    assert_eq!(current_page, 1);
    assert_eq!(total_comments, 0);
    assert_eq!(total_pages, 0);
}

#[test]
fn test_comment_timestamps() {
    let mut repo = CommentRepository::new();
    let created_comment = create_test_comment(&mut repo, 1, 1, 1_234).unwrap();
    assert_eq!(created_comment.created_at, 1_234);
}

#[test]
fn test_comment_hierarchy() {
    let mut repo = CommentRepository::new();
    let parent_comment = create_test_comment(&mut repo, 1, 1, 1_000).unwrap();
    let child1 = create_child_comment(&mut repo, 1, 2, parent_comment.id, 1_010).unwrap();
    let child2 = create_child_comment(&mut repo, 1, 3, parent_comment.id, 1_020).unwrap();
    let grandchild = create_child_comment(&mut repo, 1, 4, child1.id, 1_030).unwrap();
    assert!(parent_comment.parent_id.is_none());
    assert_eq!(child1.parent_id, Some(parent_comment.id));
    assert_eq!(child2.parent_id, Some(parent_comment.id));
    assert_eq!(grandchild.parent_id, Some(child1.id));
    assert_eq!(parent_comment.post_id, 1);
    assert_eq!(child1.post_id, 1);
    assert_eq!(child2.post_id, 1);
    assert_eq!(grandchild.post_id, 1);
}

#[test]
fn test_comments_ordering() {
    let mut repo = CommentRepository::new();
    repo.create_comment(
        CreateCommentRequest {
            content: "first comment".to_string(),
            post_id: 1,
            parent_id: None,
        },
        1,
        1_000,
    )
    .unwrap();
    repo.create_comment(
        CreateCommentRequest {
            content: "second comment".to_string(),
            post_id: 1,
            parent_id: None,
        },
        1,
        1_010,
    )
    .unwrap();
    repo.create_comment(
        CreateCommentRequest {
            content: "third comment".to_string(),
            post_id: 1,
            parent_id: None,
        },
        1,
        1_020,
    )
    .unwrap();
    let result = repo.get_paginated_comments_by_post_id(1, 1, 10);
    assert!(result.is_ok());
    let (comments, _, _, _) = result.unwrap();
    assert_eq!(comments.len(), 3);
    // newest first
    assert_eq!(comments[0].content, "third comment");
    assert_eq!(comments[1].content, "second comment");
    assert_eq!(comments[2].content, "first comment");
}
