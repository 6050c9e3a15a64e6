//! The stores: users, posts, comments and favorites, each an in-memory
//! table with an explicit well-formedness invariant.

pub mod comment;
pub mod favorite;
pub mod post;
pub mod user;
