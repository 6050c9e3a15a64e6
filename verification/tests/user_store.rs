//! Tests of the user store: creation, lookup, partial updates, deletion
//! and uniqueness.

use blog_engine::database::user::Role;
use blog_engine::database::user::User;
use blog_engine::database::user::UserRepository;
use blog_engine::error::CustomError;
use blog_engine::handler::idl::CreateUserByAdminRequest;
use blog_engine::handler::idl::RegisterRequest;
use blog_engine::handler::idl::UpdateMyProfileRequest;
use blog_engine::handler::idl::UpdateUserRequest;

fn create_test_user(repo: &mut UserRepository) -> User {
    let register_req = RegisterRequest {
        username: "testuser".to_string(),
        email: "test@example.com".to_string(),
        password: "password123".to_string(),
    };
    let password_hash = bcrypt::hash(&register_req.password, 4).unwrap();
    repo.create_user_from_register(register_req, password_hash, 1_000)
        .unwrap()
}

#[test]
fn test_create_user_from_register() {
    let mut repo = UserRepository::new();
    let register_req = RegisterRequest {
        username: "newuser".to_string(),
        email: "newuser@example.com".to_string(),
        password: "securepassword".to_string(),
    };
    let password_hash = bcrypt::hash(&register_req.password, 4).unwrap();
    let result = repo.create_user_from_register(register_req, password_hash, 1_000);
    assert!(result.is_ok());
    let user = result.unwrap();
    assert_eq!(user.username, "newuser");
    assert_eq!(user.email, "newuser@example.com");
    assert_eq!(user.role, Role::User);
    assert!(user.id > 0);
}

#[test]
fn test_create_user_by_admin() {
    let mut repo = UserRepository::new();
    let admin_req = CreateUserByAdminRequest {
        username: "adminuser".to_string(),
        email: "admin@example.com".to_string(),
        password: "adminpassword".to_string(),
        role: "admin".to_string(),
    };
    let password_hash = bcrypt::hash(&admin_req.password, 4).unwrap();
    let result = repo.create_user_by_admin(admin_req, password_hash, Role::Admin, 1_000);
    assert!(result.is_ok());
    let user = result.unwrap();
    assert_eq!(user.username, "adminuser");
    assert_eq!(user.email, "admin@example.com");
    assert_eq!(user.role, Role::Admin);
}

#[test]
fn test_get_user_by_id() {
    let mut repo = UserRepository::new();
    let created_user = create_test_user(&mut repo);
    let result = repo.get_user_by_id(created_user.id);
    assert!(result.is_ok());
    let found_user = result.unwrap();
    assert!(found_user.is_some());
    let user = found_user.unwrap();
    assert_eq!(user.id, created_user.id);
    assert_eq!(user.username, created_user.username);
    assert_eq!(user.email, created_user.email);
}

#[test]
fn test_get_user_by_id_not_found() {
    let repo = UserRepository::new();
    let result = repo.get_user_by_id(999);
    assert!(result.is_ok());
    assert!(result.unwrap().is_none());
}

#[test]
fn test_get_user_by_username_or_email() {
    let mut repo = UserRepository::new();
    let created_user = create_test_user(&mut repo);

    let result_by_username = repo.get_user_by_username_or_email(&created_user.username);
    assert!(result_by_username.is_ok());
    assert!(result_by_username.unwrap().is_some());

    let result_by_email = repo.get_user_by_username_or_email(&created_user.email);
    assert!(result_by_email.is_ok());
    assert!(result_by_email.unwrap().is_some());

    let result_not_found = repo.get_user_by_username_or_email("nonexistent");
    assert!(result_not_found.is_ok());
    assert!(result_not_found.unwrap().is_none());
}

#[test]
fn test_update_my_profile() {
    let mut repo = UserRepository::new();
    let created_user = create_test_user(&mut repo);
    let update_req = UpdateMyProfileRequest {
        username: Some("updateduser".to_string()),
        email: Some("updated@example.com".to_string()),
        password: Some("newpassword123".to_string()),
    };
    let new_password_hash = Some(bcrypt::hash("newpassword123", 4).unwrap());
    let result = repo.update_my_profile(created_user.id, update_req, new_password_hash, 2_000);
    assert!(result.is_ok());
    let updated_user = result.unwrap();
    assert_eq!(updated_user.username, "updateduser");
    assert_eq!(updated_user.email, "updated@example.com");
    assert_ne!(updated_user.password_hash, created_user.password_hash);
}

#[test]
fn test_update_my_profile_partial() {
    let mut repo = UserRepository::new();
    let created_user = create_test_user(&mut repo);
    let update_req = UpdateMyProfileRequest {
        username: Some("partialupdateuser".to_string()),
        email: None,
        password: None,
    };
    let result = repo.update_my_profile(created_user.id, update_req, None, 2_000);
    assert!(result.is_ok());
    let updated_user = result.unwrap();
    assert_eq!(updated_user.username, "partialupdateuser");
    assert_eq!(updated_user.email, created_user.email);
    assert_eq!(updated_user.password_hash, created_user.password_hash);
}

#[test]
fn test_update_user_by_admin() {
    let mut repo = UserRepository::new();
    let created_user = create_test_user(&mut repo);
    let update_req = UpdateUserRequest {
        username: Some("adminupdateduser".to_string()),
        email: Some("adminupdated@example.com".to_string()),
        password: Some("adminpassword123".to_string()),
        role: Some("admin".to_string()),
    };
    let new_password_hash = Some(bcrypt::hash("adminpassword123", 4).unwrap());
    let result = repo.update_user_by_admin(created_user.id, update_req, new_password_hash, 2_000);
    assert!(result.is_ok());
    let updated_user = result.unwrap();
    assert_eq!(updated_user.username, "adminupdateduser");
    assert_eq!(updated_user.email, "adminupdated@example.com");
    assert_eq!(updated_user.role, Role::Admin);
}

#[test]
fn test_update_user_by_admin_invalid_role() {
    let mut repo = UserRepository::new();
    let created_user = create_test_user(&mut repo);
    let update_req = UpdateUserRequest {
        username: None,
        email: None,
        password: None,
        role: Some("invalid_role".to_string()),
    };
    let result = repo.update_user_by_admin(created_user.id, update_req, None, 2_000);
    assert!(result.is_err());
    match result.unwrap_err() {
        CustomError::BadRequest(msg) => {
            assert!(msg.contains("role is invalid"));
        }
        _ => panic!("Expected BadRequest error"),
    }
}

#[test]
fn test_update_user_not_found() {
    let mut repo = UserRepository::new();
    let update_req = UpdateMyProfileRequest {
        username: Some("nonexistentuser".to_string()),
        email: None,
        password: None,
    };
    let result = repo.update_my_profile(999, update_req, None, 2_000);
    assert!(result.is_err());
    match result.unwrap_err() {
        CustomError::NotFound(msg) => {
            assert!(msg.contains("not found"));
        }
        _ => panic!("Expected NotFound error"),
    }
}

#[test]
fn test_delete_user() {
    let mut repo = UserRepository::new();
    let created_user = create_test_user(&mut repo);
    let result = repo.delete_user(created_user.id);
    assert!(result.is_ok());
    let find_result = repo.get_user_by_id(created_user.id);
    assert!(find_result.is_ok());
    assert!(find_result.unwrap().is_none());
}

#[test]
fn test_delete_user_not_found() {
    let mut repo = UserRepository::new();
    let result = repo.delete_user(999);
    assert!(result.is_err());
    match result.unwrap_err() {
        CustomError::NotFound(msg) => {
            assert!(msg.contains("not found"));
        }
        _ => panic!("Expected NotFound error"),
    }
}

#[test]
fn test_duplicate_username() {
    let mut repo = UserRepository::new();
    let _first_user = create_test_user(&mut repo);
    let duplicate_req = RegisterRequest {
        username: "testuser".to_string(),
        email: "different@example.com".to_string(),
        password: "password123".to_string(),
    };
    let password_hash = bcrypt::hash(&duplicate_req.password, 4).unwrap();
    let result = repo.create_user_from_register(duplicate_req, password_hash, 1_500);
    assert!(result.is_err());
}

#[test]
fn test_duplicate_email() {
    let mut repo = UserRepository::new();
    let _first_user = create_test_user(&mut repo);
    let duplicate_req = RegisterRequest {
        username: "differentuser".to_string(),
        email: "test@example.com".to_string(),
        password: "password123".to_string(),
    };
    let password_hash = bcrypt::hash(&duplicate_req.password, 4).unwrap();
    let result = repo.create_user_from_register(duplicate_req, password_hash, 1_500);
    assert!(result.is_err());
}

#[test]
fn test_user_timestamps() {
    let mut repo = UserRepository::new();
    let created_user = create_test_user(&mut repo);
    assert_eq!(created_user.created_at, 1_000);
    assert_eq!(created_user.updated_at, 1_000);

    let update_req = UpdateMyProfileRequest {
        username: Some("timestamptest".to_string()),
        email: None,
        password: None,
    };
    let updated_user = repo
        .update_my_profile(created_user.id, update_req, None, 1_010)
        .unwrap();
    assert_eq!(updated_user.created_at, created_user.created_at);
    assert_eq!(updated_user.updated_at, 1_010);
    assert!(updated_user.updated_at > created_user.updated_at);
}

#[test]
fn test_user_creation() {
    let mut repo = UserRepository::new();
    let user = create_test_user(&mut repo);
    assert!(!user.is_admin());
}

#[test]
fn test_find_user() {
    let mut repo = UserRepository::new();
    let test_user = create_test_user(&mut repo);
    let found = repo
        .find_by_username(&test_user.username)
        .unwrap()
        .expect("User not found");
    assert_eq!(found.id, test_user.id);
    let by_email = repo.find_by_email(&test_user.email).unwrap().unwrap();
    assert_eq!(by_email.id, test_user.id);
    assert!(repo.find_by_username("missing").unwrap().is_none());
    assert!(repo.find_by_email("missing@example.com").unwrap().is_none());
}

#[test]
fn test_update_user() {
    let mut repo = UserRepository::new();
    let created_user = create_test_user(&mut repo);
    let update_req = UpdateUserRequest {
        username: Some("renamed".to_string()),
        email: None,
        password: None,
        role: None,
    };
    let result = repo.update_user_by_admin(created_user.id, update_req, None, 3_000);
    assert!(result.is_ok());
    let updated = result.unwrap();
    assert_eq!(updated.username, "renamed");
    assert_eq!(updated.role, created_user.role);
}

#[test]
fn test_delete_users_batch() {
    let mut repo = UserRepository::new();
    let u1 = create_test_user(&mut repo);
    let u2 = repo
        .create_user_from_register(
            RegisterRequest {
                username: "second".to_string(),
                email: "second@example.com".to_string(),
                password: "password123".to_string(),
            },
            "stored-hash".to_string(),
            1_100,
        )
        .unwrap();
    let u3 = repo
        .create_user_from_register(
            RegisterRequest {
                username: "third".to_string(),
                email: "third@example.com".to_string(),
                password: "password123".to_string(),
            },
            "stored-hash".to_string(),
            1_200,
        )
        .unwrap();
    let count = repo.delete_users_by_ids(vec![u1.id, u3.id, 999]).unwrap();
    assert_eq!(count, 2);
    assert!(repo.get_user_by_id(u1.id).unwrap().is_none());
    assert!(repo.get_user_by_id(u2.id).unwrap().is_some());
    assert!(repo.get_user_by_id(u3.id).unwrap().is_none());
}

#[test]
fn test_get_all_users_pagination() {
    let mut repo = UserRepository::new();
    for i in 0..5 {
        repo.create_user_from_register(
            RegisterRequest {
                username: format!("user{}", i),
                email: format!("user{}@example.com", i),
                password: "password123".to_string(),
            },
            "stored-hash".to_string(),
            1_000 + i,
        )
        .unwrap();
    }
    let (page1, total_pages, current_page, total) = repo.get_all_users(1, 2).unwrap();
    assert_eq!(page1.len(), 2);
    assert_eq!(total_pages, 3);
    assert_eq!(current_page, 1);
    assert_eq!(total, 5);
    assert_eq!(page1[0].username, "user0");
    assert_eq!(page1[1].username, "user1");

    let (page3, _, _, _) = repo.get_all_users(3, 2).unwrap();
    assert_eq!(page3.len(), 1);
    assert_eq!(page3[0].username, "user4");

    let (page4, _, _, _) = repo.get_all_users(4, 2).unwrap();
    assert_eq!(page4.len(), 0);

    let empty = UserRepository::new();
    let (items, pages, _, count) = empty.get_all_users(1, 10).unwrap();
    assert_eq!(items.len(), 0);
    assert_eq!(pages, 0);
    assert_eq!(count, 0);
}

#[test]
fn test_update_to_taken_username_conflicts() {
    let mut repo = UserRepository::new();
    let first = create_test_user(&mut repo);
    let second = repo
        .create_user_from_register(
            RegisterRequest {
                username: "otheruser".to_string(),
                email: "other@example.com".to_string(),
                password: "password123".to_string(),
            },
            "stored-hash".to_string(),
            1_100,
        )
        .unwrap();
    let update_req = UpdateMyProfileRequest {
        username: Some(first.username.clone()),
        email: None,
        password: None,
    };
    let result = repo.update_my_profile(second.id, update_req, None, 1_200);
    assert!(matches!(result, Err(CustomError::Conflict(_))));
    // renaming a user to their own current name is not a conflict
    let keep_own = UpdateMyProfileRequest {
        username: Some("otheruser".to_string()),
        email: None,
        password: None,
    };
    assert!(repo.update_my_profile(second.id, keep_own, None, 1_300).is_ok());
}
