//! The credential and token module: password hashing and verification
//! through bcrypt, and session-token issuing and checking through
//! HMAC-SHA256 JSON Web Tokens.
//!
//! The outside calls stand behind trusted wrappers; everything that can be
//! decided from their results is decided in verified code.

use vstd::prelude::*;

use crate::error::CustomError;
use crate::error::CustomResult;
use crate::strutil::str_eq;

verus! {

/// What `bcrypt::verify(password, hash)` returns: `Some(b)` when the hash
/// parses, `None` when it is malformed. The outcome depends on the two
/// strings alone — bcrypt re-derives the hash from the salt embedded in it.
pub uninterp spec fn bcrypt_check(password: Seq<char>, hash: Seq<char>) -> Option<bool>;

/// What `jsonwebtoken::encode` returns for a claim set
/// `{sub, username, role, exp}` signed with HMAC-SHA256 under `secret`:
/// a function of its inputs alone.
pub uninterp spec fn token_of(
    sub: Seq<char>,
    username: Seq<char>,
    role: Seq<char>,
    exp: int,
    secret: Seq<char>,
) -> Seq<char>;

/// How long an issued token stays valid: 30 days, in seconds.
pub const TOKEN_TTL_SECONDS: u64 = 2592000;

/// The clock values the token-issuing paths accept: non-negative, and far
/// enough from the end of the `usize` range that the expiry timestamp fits.
pub open spec fn now_ok(now: int) -> bool {
    0 <= now && now + TOKEN_TTL_SECONDS <= usize::MAX
}

/// Whether an optional stored hash answers to an optional plain password:
/// both absent, or both present with the hash verifying against the
/// password.
pub open spec fn hash_opt_matches(password: Option<Seq<char>>, hash: Option<Seq<char>>) -> bool {
    match password {
        None => hash is None,
        Some(p) => hash matches Some(h) && bcrypt_check(p, h) == Some(true),
    }
}

/// Relies on `bcrypt::hash`: the salt is drawn from OS randomness, but
/// whatever hash comes back re-verifies against the password
/// (`_hash_password` is deterministic given the salt embedded in the
/// output), and a cost outside 4..=31 is always rejected.
#[verifier::external_body]
pub(crate) fn hash_password(password: &str, cost: u32) -> (r: Result<String, String>)
    ensures
        r matches Ok(h) ==> bcrypt_check(password@, h@) == Some(true),
        cost < 4 || cost > 31 ==> r is Err,
{
    bcrypt::hash(password, cost).map_err(|e| e.to_string())
}

/// Relies on `bcrypt::verify`: deterministic in the password and the hash;
/// it fails exactly when the hash string is malformed.
#[verifier::external_body]
pub(crate) fn verify_password(password: &str, hash: &str) -> (r: Result<bool, String>)
    ensures
        r matches Ok(b) ==> bcrypt_check(password@, hash@) == Some(b),
        r is Err ==> bcrypt_check(password@, hash@) is None,
{
    bcrypt::verify(password, hash).map_err(|e| e.to_string())
}

/// Relies on `jsonwebtoken::encode` with `Header::default()` (HS256) and an
/// HMAC secret: serialization of the claim map (keys inserted in their
/// sorted order) and the HMAC signature are functions of the inputs alone.
/// The call cannot fail: under the crate's built-in provider, HMAC-SHA256
/// accepts a secret of any length and serializing this map of strings and
/// one integer cannot error.
#[verifier::external_body]
fn sign_token(sub: &str, username: &str, role: &str, exp: u64, secret: &str) -> (r: Result<
    String,
    String,
>)
    ensures
        r is Ok,
        r matches Ok(t) ==> t@ == token_of(sub@, username@, role@, exp as int, secret@),
{
    let mut claims = serde_json::Map::new();
    claims.insert("exp".to_string(), serde_json::Value::from(exp));
    claims.insert("role".to_string(), serde_json::Value::from(role));
    claims.insert("sub".to_string(), serde_json::Value::from(sub));
    claims.insert("username".to_string(), serde_json::Value::from(username));
    jsonwebtoken::encode(
        &jsonwebtoken::Header::default(),
        &serde_json::Value::Object(claims),
        &jsonwebtoken::EncodingKey::from_secret(secret.as_bytes()),
    ).map_err(|e| e.to_string())
}

/// Relies on `jsonwebtoken::decode` with `Validation::default()` (HS256,
/// `exp` required and checked against the clock) and on the `serde_json`
/// `Value` accessors that pick the claim fields out of the payload. The
/// outcome depends on the current time, so nothing is promised of it; the
/// verified caller decides from whatever came back.
#[verifier::external_body]
fn decode_token_fields(token: &str, secret: &str) -> (r: Result<
    (Option<String>, Option<String>, Option<String>, Option<u64>),
    String,
>) {
    let key = jsonwebtoken::DecodingKey::from_secret(secret.as_bytes());
    let validation = jsonwebtoken::Validation::default();
    let data = jsonwebtoken::decode::<serde_json::Value>(token, &key, &validation)
        .map_err(|e| e.to_string())?;
    let v = data.claims;
    let field = |k: &str| v.get(k).and_then(|x| x.as_str()).map(|s| s.to_string());
    Ok((field("sub"), field("username"), field("role"), v.get("exp").and_then(|x| x.as_u64())))
}

/// The claim set carried by a session token: the user id (as a decimal
/// string), the username, the role, and the expiry as a Unix timestamp.
#[derive(Debug)]
pub struct Claims {
    pub sub: String,
    pub username: String,
    pub role: String,
    pub exp: usize,
}

impl Claims {
    /// Whether these claims carry the administrator role.
    pub fn is_admin(&self) -> (b: bool)
        ensures
            b == (self.role@ == "admin"@),
    {
        str_eq(self.role.as_str(), "admin")
    }
}

/// Signs a session token for the given identity: the result is exactly
/// the HS256 encoding of the claim set under the secret, and signing
/// always succeeds.
pub fn generate_jwt(
    sub: &str,
    username: &str,
    role: &str,
    exp_timestamp: usize,
    jwt_secret: &str,
) -> (r: CustomResult<String>)
    ensures
        r is Ok,
        r matches Ok(t) ==> t@ == token_of(
            sub@,
            username@,
            role@,
            exp_timestamp as int,
            jwt_secret@,
        ),
{
    match sign_token(sub, username, role, exp_timestamp as u64, jwt_secret) {
        Ok(t) => Ok(t),
        Err(m) => Err(CustomError::JwtError(m)),
    }
}

/// Builds a claim set from the fields a decoded token carried: all four
/// must be present, or the token is rejected.
pub fn claims_from_fields(
    sub: Option<String>,
    username: Option<String>,
    role: Option<String>,
    exp: Option<u64>,
) -> (r: CustomResult<Claims>)
    ensures
        r is Ok <==> sub is Some && username is Some && role is Some && (exp matches Some(e)
            && e <= usize::MAX),
        r matches Ok(c) ==> {
            &&& Some(c.sub) == sub
            &&& Some(c.username) == username
            &&& Some(c.role) == role
            &&& Some(c.exp as u64) == exp
        },
        r matches Err(e) ==> e is JwtError,
{
    match (sub, username, role, exp) {
        (Some(s), Some(u), Some(ro), Some(e)) => {
            if e <= usize::MAX as u64 {
                Ok(Claims { sub: s, username: u, role: ro, exp: e as usize })
            } else {
                Err(CustomError::JwtError(String::from_str("the token claims are incomplete")))
            }
        },
        _ => Err(CustomError::JwtError(String::from_str("the token claims are incomplete"))),
    }
}

/// Checks a session token: the signature must verify under the secret, the
/// token must not be expired, and all four claims must be present. The
/// outcome of the signature and expiry check rests with the token library;
/// whatever claims come back are assembled and returned.
pub fn verify_token(token: &str, jwt_secret: &str) -> (r: CustomResult<Claims>)
    ensures
        r matches Err(e) ==> e is JwtError,
{
    match decode_token_fields(token, jwt_secret) {
        Ok((sub, username, role, exp)) => claims_from_fields(sub, username, role, exp),
        Err(m) => Err(CustomError::JwtError(m)),
    }
}

} // verus!
