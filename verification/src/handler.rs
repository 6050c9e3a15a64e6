//! Request handling: data-transfer types, authentication, and the
//! per-resource orchestration that validates input, enforces authorization
//! and drives the stores.

pub mod auth;
pub mod comment;
pub mod favorite;
pub mod idl;
pub mod post;
pub mod user;
