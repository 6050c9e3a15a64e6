//! A verified core for a small blog backend: users, posts, comments and
//! per-user post favorites, with token-based authentication and role-based
//! authorization.
//!
//! The stores keep their records in memory with explicit well-formedness
//! invariants (unique ids, unique usernames and emails, time-ordered rows);
//! the handler layer enforces validation, authentication and ownership rules.
//! Password hashing, token signing and email validation are delegated to
//! outside crates through a small set of trusted wrappers.

use vstd::prelude::*;

pub mod database;
pub mod error;
pub mod handler;
pub mod numstr;
pub mod pagination;
pub mod seqx;
pub mod strutil;

pub use error::CustomError;
pub use error::CustomResult;

verus! {

/// Application-wide configuration: the token-signing secret and the
/// work factor for password hashing.
pub struct Config {
    pub jwt_secret: String,
    pub bcrypt_cost: u32,
}

} // verus!
