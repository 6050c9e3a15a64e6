//! User handlers: registration, login, self-service profile access, and
//! the administrator's user management.
//!
//! Every handler states exactly which requests succeed, which error each
//! rejected request receives, and how the store changes.

use vstd::prelude::*;

use crate::Config;
use crate::database::user::contains_user_id;
use crate::database::user::first_ident_idx;
use crate::database::user::id_in_list;
use crate::database::user::ident_taken;
use crate::database::user::lemma_taken_is_ident_taken;
use crate::database::user::info_matches;
use crate::database::user::opt_view;
use crate::database::user::role_of_opt;
use crate::database::user::spec_role_str;
use crate::database::user::update_accepted;
use crate::database::user::updated_user;
use crate::database::user::user_idx_of;
use crate::database::user::Role;
use crate::database::user::UserRepository;
use crate::database::user::UserView;
use crate::error::spec_message;
use crate::error::CustomError;
use crate::error::CustomResult;
use crate::handler::auth::bcrypt_check;
use crate::handler::auth::generate_jwt;
use crate::handler::auth::hash_opt_matches;
use crate::handler::auth::hash_password;
use crate::handler::auth::now_ok;
use crate::handler::auth::token_of;
use crate::handler::auth::verify_password;
use crate::handler::auth::Claims;
use crate::handler::auth::TOKEN_TTL_SECONDS;
use crate::handler::idl::is_valid_email;
use crate::handler::idl::valid_password;
use crate::handler::idl::valid_role;
use crate::handler::idl::valid_username;
use crate::handler::idl::BaseResponse;
use crate::handler::idl::CreateUserByAdminRequest;
use crate::handler::idl::DeleteUserRequest;
use crate::handler::idl::IdResponse;
use crate::handler::idl::LoginRequest;
use crate::handler::idl::LoginResponse;
use crate::handler::idl::RegisterRequest;
use crate::handler::idl::RegisterResponse;
use crate::handler::idl::UpdateMyProfileRequest;
use crate::handler::idl::UpdateUserRequest;
use crate::handler::idl::UserInfoResponse;
use crate::numstr::i32_to_string;
use crate::numstr::spec_decimal;
use crate::numstr::spec_parse_id;
use crate::numstr::parse_user_id;

verus! {

/// Whether `s2` is `s` with one freshly registered user appended: the new
/// record carries the requested identity, the given role, both timestamps
/// `now`, the expected fresh id, and a hash that verifies against the
/// requested password.
pub open spec fn user_created(
    s: Seq<UserView>,
    s2: Seq<UserView>,
    next_id: int,
    username: Seq<char>,
    email: Seq<char>,
    password: Seq<char>,
    role: Role,
    now: int,
) -> bool {
    &&& s2.len() == s.len() + 1
    &&& s2.subrange(0, s.len() as int) == s
    &&& s2.last().id == next_id
    &&& s2.last().username == username
    &&& s2.last().email == email
    &&& s2.last().role == role
    &&& s2.last().created_at == now
    &&& s2.last().updated_at == now
    &&& bcrypt_check(password, s2.last().password_hash) == Some(true)
}

/// Registers a new user: the payload must validate, neither the username
/// nor the email may already answer to an existing record, the password is
/// hashed, the record is stored with role `user`, and a session token for
/// the new identity is returned.
pub fn register_user(
    config: &Config,
    repo: &mut UserRepository,
    req: RegisterRequest,
    now: i64,
) -> (r: CustomResult<RegisterResponse>)
    requires
        old(repo).wf(),
        now_ok(now as int),
    ensures
        final(repo).wf(),
        !(valid_username(req.username@) && is_valid_email(req.email@) && valid_password(
            req.password@,
        )) ==> (r matches Err(e) && e is ValidationError && final(repo)@ == old(repo)@),
        valid_username(req.username@) && is_valid_email(req.email@) && valid_password(
            req.password@,
        ) && (ident_taken(old(repo)@, req.username@) || ident_taken(old(repo)@, req.email@)) ==> (
        r matches Err(e) && e is Conflict && final(repo)@ == old(repo)@),
        r matches Ok(resp) ==> {
            &&& valid_username(req.username@) && is_valid_email(req.email@) && valid_password(
                req.password@,
            )
            &&& !ident_taken(old(repo)@, req.username@) && !ident_taken(old(repo)@, req.email@)
            &&& resp.success == true
            &&& resp.user_id == old(repo).spec_next_id()
            &&& user_created(
                old(repo)@,
                final(repo)@,
                old(repo).spec_next_id(),
                req.username@,
                req.email@,
                req.password@,
                Role::User,
                now as int,
            )
            &&& resp.token matches Some(t) && t@ == token_of(
                spec_decimal(resp.user_id as int),
                req.username@,
                "user"@,
                now + TOKEN_TTL_SECONDS,
                config.jwt_secret@,
            )
        },
        r matches Err(e) ==> (e is ValidationError || e is Conflict || e is BcryptError
            || e is InternalServerError),
        r is Err ==> final(repo)@ == old(repo)@,
        r matches Err(e) && e is ValidationError ==> !(valid_username(req.username@)
            && is_valid_email(req.email@) && valid_password(req.password@)),
        r matches Err(e) && e is Conflict ==> (ident_taken(old(repo)@, req.username@)
            || ident_taken(old(repo)@, req.email@)),
        r matches Err(e) && e is InternalServerError ==> old(repo).spec_next_id() == i32::MAX,
{
    if let Err(e) = req.validate() {
        return Err(e);
    }
    match repo.get_user_by_username_or_email(req.username.as_str()) {
        Ok(Some(_)) => {
            return Err(CustomError::Conflict(String::from_str("the username is already taken")));
        },
        Ok(None) => {},
        Err(e) => {
            return Err(e);
        },
    }
    match repo.get_user_by_username_or_email(req.email.as_str()) {
        Ok(Some(_)) => {
            return Err(CustomError::Conflict(String::from_str("the email is already taken")));
        },
        Ok(None) => {},
        Err(e) => {
            return Err(e);
        },
    }
    let hashed = match hash_password(req.password.as_str(), config.bcrypt_cost) {
        Ok(h) => h,
        Err(m) => {
            return Err(CustomError::BcryptError(m));
        },
    };
    let ghost username_view = req.username@;
    let ghost email_view = req.email@;
    let user = match repo.create_user_from_register(req, hashed, now) {
        Ok(u) => u,
        Err(e) => {
            proof {
                lemma_taken_is_ident_taken(old(repo)@, username_view);
                lemma_taken_is_ident_taken(old(repo)@, email_view);
            }
            return Err(e);
        },
    };
    proof {
        assert(final(repo)@.subrange(0, old(repo)@.len() as int) =~= old(repo)@);
    }
    let sub = i32_to_string(user.id);
    let exp: usize = ((now as u64) + TOKEN_TTL_SECONDS) as usize;
    let role_str = user.role.as_string();
    let token = match generate_jwt(
        sub.as_str(),
        user.username.as_str(),
        role_str.as_str(),
        exp,
        config.jwt_secret.as_str(),
    ) {
        Ok(t) => t,
        Err(e) => {
            return Err(e);
        },
    };
    Ok(
        RegisterResponse {
            success: true,
            token: Some(token),
            user_id: user.id,
            message: Some(String::from_str("registration succeeded")),
        },
    )
}

/// Logs a user in: the identifier must answer to a record and the password
/// must verify against its stored hash; a fresh session token and the
/// user's profile are returned.
pub fn login_user(
    config: &Config,
    repo: &UserRepository,
    req: LoginRequest,
    now: i64,
) -> (r: CustomResult<LoginResponse>)
    requires
        repo.wf(),
        now_ok(now as int),
    ensures
        !ident_taken(repo@, req.username_or_email@) ==> (r matches Err(e) && e is Unauthorized),
        ident_taken(repo@, req.username_or_email@) ==> {
            let u = repo@[first_ident_idx(repo@, req.username_or_email@)];
            match bcrypt_check(req.password@, u.password_hash) {
                Some(ok) => !ok ==> (r matches Err(e) && e is Unauthorized),
                None => r matches Err(e) && e is BcryptError,
            }
        },
        r matches Ok(resp) ==> {
            let u = repo@[first_ident_idx(repo@, req.username_or_email@)];
            &&& ident_taken(repo@, req.username_or_email@)
            &&& bcrypt_check(req.password@, u.password_hash) == Some(true)
            &&& resp.success == true
            &&& resp.token matches Some(t) && t@ == token_of(
                spec_decimal(u.id),
                u.username,
                spec_role_str(u.role),
                now + TOKEN_TTL_SECONDS,
                config.jwt_secret@,
            )
            &&& resp.user_info matches Some(info) && info_matches(info, u)
        },
        ident_taken(repo@, req.username_or_email@) && bcrypt_check(
            req.password@,
            repo@[first_ident_idx(repo@, req.username_or_email@)].password_hash,
        ) == Some(true) ==> r is Ok,
        r matches Err(e) ==> (e is Unauthorized || e is BcryptError),
        r matches Err(e) ==> (e is Unauthorized ==> spec_message(e)
            == "invalid username or password"@),
{
    let user = match repo.get_user_by_username_or_email(req.username_or_email.as_str()) {
        Ok(Some(u)) => u,
        Ok(None) => {
            return Err(
                CustomError::Unauthorized(String::from_str("invalid username or password")),
            );
        },
        Err(e) => {
            return Err(e);
        },
    };
    match verify_password(req.password.as_str(), user.password_hash.as_str()) {
        Ok(true) => {},
        Ok(false) => {
            return Err(
                CustomError::Unauthorized(String::from_str("invalid username or password")),
            );
        },
        Err(m) => {
            return Err(CustomError::BcryptError(m));
        },
    }
    proof {
        let idx = first_ident_idx(repo@, req.username_or_email@);
        assert(0 < repo@[idx].id < repo.spec_next_id());
    }
    let sub = i32_to_string(user.id);
    let exp: usize = ((now as u64) + TOKEN_TTL_SECONDS) as usize;
    let role_str = user.role.as_string();
    let token = match generate_jwt(
        sub.as_str(),
        user.username.as_str(),
        role_str.as_str(),
        exp,
        config.jwt_secret.as_str(),
    ) {
        Ok(t) => t,
        Err(e) => {
            return Err(e);
        },
    };
    let info = user.to_user_info();
    Ok(
        LoginResponse {
            success: true,
            token: Some(token),
            user_info: Some(info),
            message: Some(String::from_str("login succeeded")),
        },
    )
}

/// Logs out: a stateless acknowledgement — token invalidation is the
/// client's concern.
pub fn logout_user() -> (r: CustomResult<BaseResponse>)
    ensures
        r matches Ok(resp) && resp.success == true,
{
    Ok(BaseResponse { success: true, message: Some(String::from_str("logout succeeded")) })
}

/// Returns the calling user's own profile, looked up by the token's
/// subject id.
pub fn get_me(claims: &Claims, repo: &UserRepository) -> (r: CustomResult<UserInfoResponse>)
    requires
        repo.wf(),
    ensures
        r is Ok <==> (spec_parse_id(claims.sub@) is Some && contains_user_id(
            repo@,
            spec_parse_id(claims.sub@).unwrap(),
        )),
        spec_parse_id(claims.sub@) is None ==> (r matches Err(e) && e is Unauthorized),
        spec_parse_id(claims.sub@) matches Some(id) && !contains_user_id(repo@, id) ==> (
        r matches Err(e) && e is NotFound),
        r matches Err(e) ==> (e is Unauthorized || e is NotFound),
        r matches Ok(resp) ==> {
            &&& resp.success == true
            &&& resp.user matches Some(info) && info_matches(
                info,
                repo@[user_idx_of(repo@, spec_parse_id(claims.sub@).unwrap())],
            )
        },
{
    let user_id = match parse_user_id(claims.sub.as_str()) {
        Some(id) => id,
        None => {
            return Err(
                CustomError::Unauthorized(String::from_str("the token's user id is invalid")),
            );
        },
    };
    match repo.get_user_by_id(user_id) {
        Ok(Some(u)) => {
            let info = u.to_user_info();
            Ok(UserInfoResponse { success: true, user: Some(info), message: None })
        },
        Ok(None) => Err(CustomError::NotFound(String::from_str("the user was not found"))),
        Err(e) => Err(e),
    }
}

/// Updates the calling user's own profile: the payload must validate, the
/// subject id must parse and exist, a new password is hashed before it is
/// stored, and only the fields present are changed.
pub fn update_me(
    claims: &Claims,
    config: &Config,
    repo: &mut UserRepository,
    req: UpdateMyProfileRequest,
    now: i64,
) -> (r: CustomResult<BaseResponse>)
    requires
        old(repo).wf(),
    ensures
        final(repo).wf(),
        r is Err ==> final(repo)@ == old(repo)@,
        !((req.username matches Some(u) ==> valid_username(u@)) && (req.email matches Some(e)
            ==> is_valid_email(e@)) && (req.password matches Some(p) ==> valid_password(p@))) ==> (
        r matches Err(e) && e is ValidationError),
        r matches Ok(resp) ==> {
            let id = spec_parse_id(claims.sub@).unwrap();
            let idx = user_idx_of(old(repo)@, id);
            &&& spec_parse_id(claims.sub@) is Some
            &&& update_accepted(old(repo)@, id, opt_view(req.username), opt_view(req.email))
            &&& resp.success == true
            &&& exists|h: Option<Seq<char>>|
                #[trigger] hash_opt_matches(opt_view(req.password), h) && final(repo)@ == old(
                    repo,
                )@.update(
                    idx,
                    updated_user(
                        old(repo)@[idx],
                        opt_view(req.username),
                        opt_view(req.email),
                        h,
                        None,
                        now as int,
                    ),
                )
        },
        r matches Err(e) ==> (e is ValidationError || e is Unauthorized || e is BcryptError
            || e is NotFound || e is Conflict),
        r matches Err(e) ==> (e is ValidationError ==> !((req.username matches Some(u)
            ==> valid_username(u@)) && (req.email matches Some(em) ==> is_valid_email(em@)) && (
        req.password matches Some(p) ==> valid_password(p@)))),
        r matches Err(e) ==> (e is Unauthorized ==> spec_parse_id(claims.sub@) is None),
        r matches Err(e) ==> (e is NotFound ==> spec_parse_id(claims.sub@) is Some
            && !contains_user_id(old(repo)@, spec_parse_id(claims.sub@).unwrap())),
        r matches Err(e) ==> (e is Conflict ==> spec_parse_id(claims.sub@) is Some
            && !update_accepted(
            old(repo)@,
            spec_parse_id(claims.sub@).unwrap(),
            opt_view(req.username),
            opt_view(req.email),
        )),
        r matches Err(e) ==> (e is BcryptError ==> req.password is Some),
        (req.username matches Some(u) ==> valid_username(u@)) && (req.email matches Some(em)
            ==> is_valid_email(em@)) && req.password is None && spec_parse_id(claims.sub@) is Some
            && update_accepted(
            old(repo)@,
            spec_parse_id(claims.sub@).unwrap(),
            opt_view(req.username),
            opt_view(req.email),
        ) ==> r is Ok,
{
    if let Err(e) = req.validate() {
        return Err(e);
    }
    let user_id = match parse_user_id(claims.sub.as_str()) {
        Some(id) => id,
        None => {
            return Err(
                CustomError::Unauthorized(String::from_str("the token's user id is invalid")),
            );
        },
    };
    let new_password_hash: Option<String> = match &req.password {
        Some(p) => {
            match hash_password(p.as_str(), config.bcrypt_cost) {
                Ok(h) => Some(h),
                Err(m) => {
                    return Err(CustomError::BcryptError(m));
                },
            }
        },
        None => None,
    };
    let ghost hview = opt_view(new_password_hash);
    match repo.update_my_profile(user_id, req, new_password_hash, now) {
        Ok(_) => {
            proof {
                assert(hash_opt_matches(opt_view(req.password), hview));
            }
            Ok(
                BaseResponse {
                    success: true,
                    message: Some(String::from_str("the profile was updated")),
                },
            )
        },
        Err(e) => Err(e),
    }
}

/// Returns any user's profile, for administrators only: a non-admin caller
/// is rejected with `Forbidden`.
pub fn get_user_by_id_admin(claims: &Claims, repo: &UserRepository, user_id: i32) -> (r:
    CustomResult<UserInfoResponse>)
    requires
        repo.wf(),
    ensures
        r is Ok <==> (claims.role@ == "admin"@ && contains_user_id(repo@, user_id as int)),
        claims.role@ != "admin"@ ==> (r matches Err(e) && e is Forbidden),
        claims.role@ == "admin"@ && !contains_user_id(repo@, user_id as int) ==> (r matches Err(e)
            && e is NotFound),
        r matches Err(e) ==> (e is Forbidden || e is NotFound),
        r matches Ok(resp) ==> {
            &&& resp.success == true
            &&& resp.user matches Some(info) && info_matches(
                info,
                repo@[user_idx_of(repo@, user_id as int)],
            )
        },
{
    if !claims.is_admin() {
        return Err(
            CustomError::Forbidden(String::from_str("only an administrator may view other users")),
        );
    }
    match repo.get_user_by_id(user_id) {
        Ok(Some(u)) => {
            let info = u.to_user_info();
            Ok(UserInfoResponse { success: true, user: Some(info), message: None })
        },
        Ok(None) => Err(CustomError::NotFound(String::from_str("the user was not found"))),
        Err(e) => Err(e),
    }
}

/// Creates a user with an explicit role, for administrators only.
pub fn create_user_admin(
    claims: &Claims,
    config: &Config,
    repo: &mut UserRepository,
    req: CreateUserByAdminRequest,
    now: i64,
) -> (r: CustomResult<IdResponse>)
    requires
        old(repo).wf(),
    ensures
        final(repo).wf(),
        r is Err ==> final(repo)@ == old(repo)@,
        claims.role@ != "admin"@ ==> (r matches Err(e) && e is Forbidden),
        claims.role@ == "admin"@ && !(valid_username(req.username@) && is_valid_email(req.email@)
            && valid_password(req.password@) && valid_role(req.role@)) ==> (r matches Err(e)
            && e is ValidationError),
        r matches Ok(resp) ==> {
            &&& claims.role@ == "admin"@
            &&& valid_username(req.username@) && is_valid_email(req.email@) && valid_password(
                req.password@,
            ) && valid_role(req.role@)
            &&& !ident_taken(old(repo)@, req.username@) && !ident_taken(old(repo)@, req.email@)
            &&& resp.success == true
            &&& resp.id == old(repo).spec_next_id()
            &&& user_created(
                old(repo)@,
                final(repo)@,
                old(repo).spec_next_id(),
                req.username@,
                req.email@,
                req.password@,
                if req.role@ == "admin"@ {
                    Role::Admin
                } else {
                    Role::User
                },
                now as int,
            )
        },
        r matches Err(e) ==> (e is Forbidden || e is ValidationError || e is Conflict
            || e is BcryptError || e is InternalServerError),
        r matches Err(e) ==> (e is Forbidden ==> claims.role@ != "admin"@),
        r matches Err(e) ==> (e is ValidationError ==> !(valid_username(req.username@)
            && is_valid_email(req.email@) && valid_password(req.password@) && valid_role(
            req.role@,
        ))),
        r matches Err(e) ==> (e is Conflict ==> (ident_taken(old(repo)@, req.username@)
            || ident_taken(old(repo)@, req.email@))),
        r matches Err(e) ==> (e is InternalServerError ==> old(repo).spec_next_id() == i32::MAX),
{
    if !claims.is_admin() {
        return Err(
            CustomError::Forbidden(String::from_str("only an administrator may create users")),
        );
    }
    if let Err(e) = req.validate() {
        return Err(e);
    }
    match repo.get_user_by_username_or_email(req.username.as_str()) {
        Ok(Some(_)) => {
            return Err(CustomError::Conflict(String::from_str("the username is already taken")));
        },
        Ok(None) => {},
        Err(e) => {
            return Err(e);
        },
    }
    match repo.get_user_by_username_or_email(req.email.as_str()) {
        Ok(Some(_)) => {
            return Err(CustomError::Conflict(String::from_str("the email is already taken")));
        },
        Ok(None) => {},
        Err(e) => {
            return Err(e);
        },
    }
    let hashed = match hash_password(req.password.as_str(), config.bcrypt_cost) {
        Ok(h) => h,
        Err(m) => {
            return Err(CustomError::BcryptError(m));
        },
    };
    let role = if crate::strutil::str_eq(req.role.as_str(), "admin") {
        Role::Admin
    } else {
        Role::User
    };
    let ghost username_view = req.username@;
    let ghost email_view = req.email@;
    let user = match repo.create_user_by_admin(req, hashed, role, now) {
        Ok(u) => u,
        Err(e) => {
            proof {
                lemma_taken_is_ident_taken(old(repo)@, username_view);
                lemma_taken_is_ident_taken(old(repo)@, email_view);
            }
            return Err(e);
        },
    };
    proof {
        assert(final(repo)@.subrange(0, old(repo)@.len() as int) =~= old(repo)@);
    }
    Ok(
        IdResponse {
            success: true,
            id: user.id,
            message: Some(String::from_str("the user was created")),
        },
    )
}

/// Updates any user, for administrators only: partial fields plus an
/// optional role change.
pub fn update_user_admin(
    claims: &Claims,
    config: &Config,
    repo: &mut UserRepository,
    user_id: i32,
    req: UpdateUserRequest,
    now: i64,
) -> (r: CustomResult<BaseResponse>)
    requires
        old(repo).wf(),
    ensures
        final(repo).wf(),
        r is Err ==> final(repo)@ == old(repo)@,
        claims.role@ != "admin"@ ==> (r matches Err(e) && e is Forbidden),
        r matches Ok(resp) ==> {
            let idx = user_idx_of(old(repo)@, user_id as int);
            &&& claims.role@ == "admin"@
            &&& update_accepted(
                old(repo)@,
                user_id as int,
                opt_view(req.username),
                opt_view(req.email),
            )
            &&& resp.success == true
            &&& exists|h: Option<Seq<char>>|
                #[trigger] hash_opt_matches(opt_view(req.password), h) && final(repo)@ == old(
                    repo,
                )@.update(
                    idx,
                    updated_user(
                        old(repo)@[idx],
                        opt_view(req.username),
                        opt_view(req.email),
                        h,
                        role_of_opt(req.role),
                        now as int,
                    ),
                )
        },
        r matches Err(e) ==> (e is Forbidden || e is ValidationError || e is BcryptError
            || e is NotFound || e is Conflict),
        r matches Err(e) ==> (e is Forbidden ==> claims.role@ != "admin"@),
        r matches Err(e) ==> (e is ValidationError ==> !((req.username matches Some(u)
            ==> valid_username(u@)) && (req.email matches Some(em) ==> is_valid_email(em@)) && (
        req.password matches Some(p) ==> valid_password(p@)) && (req.role matches Some(ro)
            ==> valid_role(ro@)))),
        r matches Err(e) ==> (e is NotFound ==> !contains_user_id(old(repo)@, user_id as int)),
        r matches Err(e) ==> (e is Conflict ==> !update_accepted(
            old(repo)@,
            user_id as int,
            opt_view(req.username),
            opt_view(req.email),
        )),
        r matches Err(e) ==> (e is BcryptError ==> req.password is Some),
        claims.role@ == "admin"@ && (req.username matches Some(u) ==> valid_username(u@)) && (
        req.email matches Some(em) ==> is_valid_email(em@)) && (req.role matches Some(ro)
            ==> valid_role(ro@)) && req.password is None && update_accepted(
            old(repo)@,
            user_id as int,
            opt_view(req.username),
            opt_view(req.email),
        ) ==> r is Ok,
{
    if !claims.is_admin() {
        return Err(
            CustomError::Forbidden(String::from_str("only an administrator may update users")),
        );
    }
    if let Err(e) = req.validate() {
        return Err(e);
    }
    let new_password_hash: Option<String> = match &req.password {
        Some(p) => {
            match hash_password(p.as_str(), config.bcrypt_cost) {
                Ok(h) => Some(h),
                Err(m) => {
                    return Err(CustomError::BcryptError(m));
                },
            }
        },
        None => None,
    };
    let ghost hview = opt_view(new_password_hash);
    match repo.update_user_by_admin(user_id, req, new_password_hash, now) {
        Ok(_) => {
            proof {
                assert(hash_opt_matches(opt_view(req.password), hview));
            }
            Ok(
                BaseResponse {
                    success: true,
                    message: Some(String::from_str("the user was updated")),
                },
            )
        },
        Err(e) => Err(e),
    }
}

/// Deletes one user, for administrators only.
pub fn delete_user_admin(claims: &Claims, repo: &mut UserRepository, user_id: i32) -> (r:
    CustomResult<BaseResponse>)
    requires
        old(repo).wf(),
    ensures
        final(repo).wf(),
        r is Err ==> final(repo)@ == old(repo)@,
        r is Ok <==> (claims.role@ == "admin"@ && contains_user_id(old(repo)@, user_id as int)),
        claims.role@ != "admin"@ ==> (r matches Err(e) && e is Forbidden),
        claims.role@ == "admin"@ && !contains_user_id(old(repo)@, user_id as int) ==> (r matches Err(
            e,
        ) && e is NotFound),
        r matches Err(e) ==> (e is Forbidden || e is NotFound),
        r matches Ok(resp) ==> {
            &&& resp.success == true
            &&& final(repo)@ == old(repo)@.remove(user_idx_of(old(repo)@, user_id as int))
        },
{
    if !claims.is_admin() {
        return Err(
            CustomError::Forbidden(String::from_str("only an administrator may delete users")),
        );
    }
    match repo.delete_user(user_id) {
        Ok(()) => Ok(
            BaseResponse { success: true, message: Some(String::from_str("the user was deleted")) },
        ),
        Err(e) => Err(e),
    }
}

/// Deletes a batch of users, for administrators only; ids that do not
/// exist are skipped.
pub fn delete_users_batch_admin(
    claims: &Claims,
    repo: &mut UserRepository,
    req: DeleteUserRequest,
) -> (r: CustomResult<BaseResponse>)
    requires
        old(repo).wf(),
    ensures
        final(repo).wf(),
        r is Err ==> final(repo)@ == old(repo)@,
        r is Ok <==> claims.role@ == "admin"@,
        r matches Err(e) ==> e is Forbidden,
        r matches Ok(resp) ==> {
            &&& resp.success == true
            &&& final(repo)@ == old(repo)@.filter(
                |u: UserView| !id_in_list(req.user_ids@, u.id),
            )
        },
{
    if !claims.is_admin() {
        return Err(
            CustomError::Forbidden(String::from_str("only an administrator may delete users")),
        );
    }
    match repo.delete_users_by_ids(req.user_ids) {
        Ok(count) => {
            let mut message = crate::numstr::u64_to_string(count);
            message.append(" users were deleted");
            Ok(BaseResponse { success: true, message: Some(message) })
        },
        Err(e) => Err(e),
    }
}

} // verus!
