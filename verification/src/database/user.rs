//! The user store: records with unique ids, usernames and emails, created
//! through registration or by an administrator, partially updatable, and
//! listed page by page.

use vstd::prelude::*;

use crate::error::CustomError;
use crate::error::CustomResult;
use crate::handler::idl::RegisterRequest;
use crate::handler::idl::CreateUserByAdminRequest;
use crate::handler::idl::UpdateMyProfileRequest;
use crate::handler::idl::UpdateUserRequest;
use crate::handler::idl::UserInfo;
use crate::pagination::spec_num_pages;
use crate::pagination::spec_page;
use crate::pagination::eff_page;
use crate::pagination::num_pages;
use crate::pagination::page_bounds;
use crate::seqx::lemma_filter_elementwise;
use crate::seqx::lemma_filter_pairwise;
use crate::strutil::str_eq;

verus! {

/// A user's role: the closed two-value set the API accepts.
#[derive(Clone, Copy, PartialEq, Eq, Structural, Debug)]
pub enum Role {
    User,
    Admin,
}

impl Role {
    /// The lower-case name of the role, as the API writes it.
    pub fn as_string(&self) -> (r: String)
        ensures
            r@ == spec_role_str(*self),
    {
        match self {
            Role::User => String::from_str("user"),
            Role::Admin => String::from_str("admin"),
        }
    }
}

/// The string a role renders as.
pub open spec fn spec_role_str(r: Role) -> Seq<char> {
    match r {
        Role::User => "user"@,
        Role::Admin => "admin"@,
    }
}

/// A stored user record. The password hash is opaque text; timestamps are
/// Unix seconds.
#[derive(Debug)]
pub struct User {
    pub id: i32,
    pub username: String,
    pub email: String,
    pub password_hash: String,
    pub role: Role,
    pub created_at: i64,
    pub updated_at: i64,
}

/// The mathematical image of a user record.
pub struct UserView {
    pub id: int,
    pub username: Seq<char>,
    pub email: Seq<char>,
    pub password_hash: Seq<char>,
    pub role: Role,
    pub created_at: int,
    pub updated_at: int,
}

impl View for User {
    type V = UserView;

    open spec fn view(&self) -> UserView {
        UserView {
            id: self.id as int,
            username: self.username@,
            email: self.email@,
            password_hash: self.password_hash@,
            role: self.role,
            created_at: self.created_at as int,
            updated_at: self.updated_at as int,
        }
    }
}

impl User {
    /// Whether this user holds the administrator role.
    pub fn is_admin(&self) -> (b: bool)
        ensures
            b == (self.role == Role::Admin),
    {
        self.role == Role::Admin
    }

    /// A field-for-field copy of the record.
    pub fn duplicate(&self) -> (r: User)
        ensures
            r@ == self@,
    {
        User {
            id: self.id,
            username: self.username.clone(),
            email: self.email.clone(),
            password_hash: self.password_hash.clone(),
            role: self.role,
            created_at: self.created_at,
            updated_at: self.updated_at,
        }
    }

    /// The public profile of the record.
    pub fn to_user_info(&self) -> (r: UserInfo)
        ensures
            r.id == self.id,
            r.username@ == self.username@,
            r.email@ == self.email@,
            r.role@ == spec_role_str(self.role),
            r.created_at == self.created_at,
    {
        UserInfo {
            id: self.id,
            username: self.username.clone(),
            email: self.email.clone(),
            role: self.role.as_string(),
            created_at: self.created_at,
        }
    }
}

/// Whether some record in `s` has id `id`.
pub open spec fn contains_user_id(s: Seq<UserView>, id: int) -> bool {
    exists|i: int| 0 <= i < s.len() && #[trigger] s[i].id == id
}

/// The index of the record with id `id` (unique under `wf`).
pub open spec fn user_idx_of(s: Seq<UserView>, id: int) -> int {
    choose|i: int| 0 <= i < s.len() && #[trigger] s[i].id == id
}

/// Whether some record in `s` has username `name`.
pub open spec fn username_taken(s: Seq<UserView>, name: Seq<char>) -> bool {
    exists|i: int| 0 <= i < s.len() && #[trigger] s[i].username == name
}

/// The index of the record with username `name` (unique under `wf`).
pub open spec fn u_idx(s: Seq<UserView>, name: Seq<char>) -> int {
    choose|i: int| 0 <= i < s.len() && #[trigger] s[i].username == name
}

/// The index of the record with email `email` (unique under `wf`).
pub open spec fn e_idx(s: Seq<UserView>, email: Seq<char>) -> int {
    choose|i: int| 0 <= i < s.len() && #[trigger] s[i].email == email
}

/// Whether some record in `s` has email `email`.
pub open spec fn email_taken(s: Seq<UserView>, email: Seq<char>) -> bool {
    exists|i: int| 0 <= i < s.len() && #[trigger] s[i].email == email
}

/// Whether `u` answers to `ident` as a username or as an email.
pub open spec fn matches_ident(u: UserView, ident: Seq<char>) -> bool {
    u.username == ident || u.email == ident
}

/// Whether some record in `s` answers to `ident`.
pub open spec fn ident_taken(s: Seq<UserView>, ident: Seq<char>) -> bool {
    exists|i: int| 0 <= i < s.len() && matches_ident(#[trigger] s[i], ident)
}

/// The index of the first record answering to `ident`
/// (`s.len()` when none does).
pub open spec fn first_ident_idx(s: Seq<UserView>, ident: Seq<char>) -> int
    decreases s.len(),
{
    if s.len() == 0 {
        0
    } else if matches_ident(s[0], ident) {
        0
    } else {
        1 + first_ident_idx(s.drop_first(), ident)
    }
}

/// A scan that found a match at `i`, with no match before it, found the
/// first match.
proof fn lemma_first_ident_idx(s: Seq<UserView>, ident: Seq<char>, i: int)
    requires
        0 <= i < s.len(),
        matches_ident(s[i], ident),
        forall|k: int| 0 <= k < i ==> !matches_ident(#[trigger] s[k], ident),
    ensures
        first_ident_idx(s, ident) == i,
    decreases i,
{
    if i == 0 {
    } else {
        assert(!matches_ident(s[0], ident));
        let t = s.drop_first();
        assert(t[i - 1] == s[i]);
        assert(forall|k: int| 0 <= k < i - 1 ==> #[trigger] t[k] == s[k + 1]);
        lemma_first_ident_idx(t, ident, i - 1);
    }
}

/// Two distinct rows of a well-formed store have distinct ids.
proof fn lemma_distinct_ids(repo: &UserRepository, a: int, b: int)
    requires
        repo.wf(),
        0 <= a < b < repo@.len(),
    ensures
        repo@[a].id != repo@[b].id,
{
}

/// The user store. `next_id` is the id the next created record receives.
pub struct UserRepository {
    pub users: Vec<User>,
    pub next_id: i32,
}

impl View for UserRepository {
    type V = Seq<UserView>;

    open spec fn view(&self) -> Seq<UserView> {
        self.users@.map_values(|u: User| u@)
    }
}

impl UserRepository {
    /// The id the next created record receives.
    pub open spec fn spec_next_id(&self) -> int {
        self.next_id as int
    }

    /// Well-formedness: ids are positive, below `next_id` and unique;
    /// usernames and emails are unique.
    pub open spec fn wf(&self) -> bool {
        &&& 1 <= self.next_id
        &&& forall|i: int| 0 <= i < self@.len() ==> 0 < #[trigger] self@[i].id < self.spec_next_id()
        &&& forall|i: int, j: int|
            0 <= i < j < self@.len() ==> #[trigger] self@[i].id != #[trigger] self@[j].id
        &&& forall|i: int, j: int|
            0 <= i < j < self@.len() ==> self@[i].username != self@[j].username
        &&& forall|i: int, j: int| 0 <= i < j < self@.len() ==> self@[i].email != self@[j].email
    }

    /// An empty store whose first record will get id 1.
    pub fn new() -> (r: UserRepository)
        ensures
            r.wf(),
            r@ == Seq::<UserView>::empty(),
            r.spec_next_id() == 1,
    {
        let r = UserRepository { users: Vec::new(), next_id: 1 };
        proof {
            assert(r@ =~= Seq::<UserView>::empty());
        }
        r
    }

    /// How the store looks after appending a fresh record: the row is
    /// pushed and the id counter advances.
    pub open spec fn spec_created(self, old_self: UserRepository, u: UserView) -> bool {
        &&& self@ == old_self@.push(u)
        &&& self.spec_next_id() == old_self.spec_next_id() + 1
    }

    /// Creates a user from a registration: role `user`, both timestamps
    /// `now`. Fails with `Conflict` exactly when the username or the email
    /// is already present, and with `InternalServerError` when the id space
    /// is exhausted; on failure the store is unchanged.
    pub fn create_user_from_register(
        &mut self,
        req: RegisterRequest,
        password_hash: String,
        now: i64,
    ) -> (r: CustomResult<User>)
        requires
            old(self).wf(),
        ensures
            final(self).wf(),
            r is Ok <==> !username_taken(old(self)@, req.username@) && !email_taken(
                old(self)@,
                req.email@,
            ) && old(self).spec_next_id() < i32::MAX,
            r matches Ok(u) ==> {
                &&& u@ == (UserView {
                    id: old(self).spec_next_id(),
                    username: req.username@,
                    email: req.email@,
                    password_hash: password_hash@,
                    role: Role::User,
                    created_at: now as int,
                    updated_at: now as int,
                })
                &&& final(self).spec_created(*old(self), u@)
            },
            r is Err ==> final(self)@ == old(self)@ && final(self).spec_next_id() == old(
                self,
            ).spec_next_id(),
            r matches Err(e) ==> if username_taken(old(self)@, req.username@) || email_taken(
                old(self)@,
                req.email@,
            ) {
                e is Conflict
            } else {
                e is InternalServerError
            },
    {
        self.create_record(req.username, req.email, password_hash, Role::User, now)
    }

    /// Creates a user on behalf of an administrator, with an explicit role.
    /// Failure cases are those of registration.
    pub fn create_user_by_admin(
        &mut self,
        req: CreateUserByAdminRequest,
        password_hash: String,
        role: Role,
        now: i64,
    ) -> (r: CustomResult<User>)
        requires
            old(self).wf(),
        ensures
            final(self).wf(),
            r is Ok <==> !username_taken(old(self)@, req.username@) && !email_taken(
                old(self)@,
                req.email@,
            ) && old(self).spec_next_id() < i32::MAX,
            r matches Ok(u) ==> {
                &&& u@ == (UserView {
                    id: old(self).spec_next_id(),
                    username: req.username@,
                    email: req.email@,
                    password_hash: password_hash@,
                    role: role,
                    created_at: now as int,
                    updated_at: now as int,
                })
                &&& final(self).spec_created(*old(self), u@)
            },
            r is Err ==> final(self)@ == old(self)@ && final(self).spec_next_id() == old(
                self,
            ).spec_next_id(),
            r matches Err(e) ==> if username_taken(old(self)@, req.username@) || email_taken(
                old(self)@,
                req.email@,
            ) {
                e is Conflict
            } else {
                e is InternalServerError
            },
    {
        self.create_record(req.username, req.email, password_hash, role, now)
    }

    /// The shared insertion path of the two creation operations.
    fn create_record(
        &mut self,
        username: String,
        email: String,
        password_hash: String,
        role: Role,
        now: i64,
    ) -> (r: CustomResult<User>)
        requires
            old(self).wf(),
        ensures
            final(self).wf(),
            r is Ok <==> !username_taken(old(self)@, username@) && !email_taken(old(self)@, email@)
                && old(self).spec_next_id() < i32::MAX,
            r matches Ok(u) ==> {
                &&& u@ == (UserView {
                    id: old(self).spec_next_id(),
                    username: username@,
                    email: email@,
                    password_hash: password_hash@,
                    role: role,
                    created_at: now as int,
                    updated_at: now as int,
                })
                &&& final(self).spec_created(*old(self), u@)
            },
            r is Err ==> final(self)@ == old(self)@ && final(self).spec_next_id() == old(
                self,
            ).spec_next_id(),
            r matches Err(e) ==> if username_taken(old(self)@, username@) || email_taken(
                old(self)@,
                email@,
            ) {
                e is Conflict
            } else {
                e is InternalServerError
            },
    {
        if self.username_exists(&username) {
            return Err(CustomError::Conflict(String::from_str("the username is already taken")));
        }
        if self.email_exists(&email) {
            return Err(CustomError::Conflict(String::from_str("the email is already taken")));
        }
        if self.next_id == i32::MAX {
            return Err(
                CustomError::InternalServerError(String::from_str("the id space is exhausted")),
            );
        }
        let user = User {
            id: self.next_id,
            username,
            email,
            password_hash,
            role,
            created_at: now,
            updated_at: now,
        };
        let copy = user.duplicate();
        self.users.push(user);
        self.next_id = self.next_id + 1;
        proof {
            assert(self@ =~= old(self)@.push(copy@));
        }
        Ok(copy)
    }

    /// Whether a record with this username exists.
    fn username_exists(&self, name: &String) -> (b: bool)
        ensures
            b == username_taken(self@, name@),
    {
        let n = self.users.len();
        let mut i: usize = 0;
        while i < n
            invariant
                0 <= i <= n,
                n == self@.len(),
                forall|k: int| 0 <= k < i ==> #[trigger] self@[k].username != name@,
            decreases n - i,
        {
            proof {
                assert(self@[i as int] == self.users@[i as int]@);
            }
            if self.users[i].username == *name {
                proof {
                    assert(self@[i as int].username == name@);
                }
                return true;
            }
            i = i + 1;
        }
        false
    }

    /// Whether a record with this email exists.
    fn email_exists(&self, email: &String) -> (b: bool)
        ensures
            b == email_taken(self@, email@),
    {
        let n = self.users.len();
        let mut i: usize = 0;
        while i < n
            invariant
                0 <= i <= n,
                n == self@.len(),
                forall|k: int| 0 <= k < i ==> #[trigger] self@[k].email != email@,
            decreases n - i,
        {
            proof {
                assert(self@[i as int] == self.users@[i as int]@);
            }
            if self.users[i].email == *email {
                proof {
                    assert(self@[i as int].email == email@);
                }
                return true;
            }
            i = i + 1;
        }
        false
    }

    /// Looks a user up by id. `Ok(Some(..))` exactly when the id exists;
    /// the store itself cannot fail.
    pub fn get_user_by_id(&self, user_id: i32) -> (r: CustomResult<Option<User>>)
        requires
            self.wf(),
        ensures
            r is Ok,
            r matches Ok(opt) ==> {
                &&& opt is Some <==> contains_user_id(self@, user_id as int)
                &&& opt matches Some(u) ==> 0 <= user_idx_of(self@, user_id as int) < self@.len()
                    && u@ == self@[user_idx_of(self@, user_id as int)]
            },
    {
        let n = self.users.len();
        let mut i: usize = 0;
        while i < n
            invariant
                self.wf(),
                0 <= i <= n,
                n == self@.len(),
                forall|k: int| 0 <= k < i ==> #[trigger] self@[k].id != user_id as int,
            decreases n - i,
        {
            proof {
                assert(self@[i as int] == self.users@[i as int]@);
            }
            if self.users[i].id == user_id {
                let u = self.users[i].duplicate();
                proof {
                    assert(self@[i as int].id == user_id as int);
                    assert(contains_user_id(self@, user_id as int));
                    let w = user_idx_of(self@, user_id as int);
                    assert(0 <= w < self@.len() && self@[w].id == user_id as int);
                    if w < i as int {
                        lemma_distinct_ids(self, w, i as int);
                    } else if w > i as int {
                        lemma_distinct_ids(self, i as int, w);
                    }
                }
                return Ok(Some(u));
            }
            i = i + 1;
        }
        Ok(None)
    }

    /// Looks a user up by username or email, returning the first record
    /// that answers to the identifier in either column.
    pub fn get_user_by_username_or_email(&self, username_or_email: &str) -> (r: CustomResult<
        Option<User>,
    >)
        requires
            self.wf(),
        ensures
            r is Ok,
            r matches Ok(opt) ==> {
                &&& opt is Some <==> ident_taken(self@, username_or_email@)
                &&& opt matches Some(u) ==> {
                    &&& 0 <= first_ident_idx(self@, username_or_email@) < self@.len()
                    &&& u@ == self@[first_ident_idx(self@, username_or_email@)]
                }
            },
    {
        let ident = String::from_str(username_or_email);
        let n = self.users.len();
        let mut i: usize = 0;
        while i < n
            invariant
                0 <= i <= n,
                n == self@.len(),
                ident@ == username_or_email@,
                forall|k: int|
                    0 <= k < i ==> !matches_ident(#[trigger] self@[k], username_or_email@),
            decreases n - i,
        {
            proof {
                assert(self@[i as int] == self.users@[i as int]@);
            }
            if self.users[i].username == ident || self.users[i].email == ident {
                let u = self.users[i].duplicate();
                proof {
                    lemma_first_ident_idx(self@, username_or_email@, i as int);
                }
                return Ok(Some(u));
            }
            i = i + 1;
        }
        Ok(None)
    }

    /// Looks a user up by username alone (unique under `wf`).
    pub fn find_by_username(&self, username: &str) -> (r: CustomResult<Option<User>>)
        requires
            self.wf(),
        ensures
            r is Ok,
            r matches Ok(opt) ==> {
                &&& opt is Some <==> username_taken(self@, username@)
                &&& opt matches Some(u) ==> 0 <= u_idx(self@, username@) < self@.len() && u@
                    == self@[u_idx(self@, username@)]
            },
    {
        let name = String::from_str(username);
        let n = self.users.len();
        let mut i: usize = 0;
        while i < n
            invariant
                self.wf(),
                0 <= i <= n,
                n == self@.len(),
                name@ == username@,
                forall|k: int| 0 <= k < i ==> #[trigger] self@[k].username != username@,
            decreases n - i,
        {
            proof {
                assert(self@[i as int] == self.users@[i as int]@);
            }
            if self.users[i].username == name {
                let u = self.users[i].duplicate();
                proof {
                    assert(self@[i as int].username == username@);
                    assert(username_taken(self@, username@));
                    let w = u_idx(self@, username@);
                    assert(0 <= w < self@.len() && self@[w].username == username@);
                    assert(w == i as int) by {
                        if w < i as int {
                            assert(self@[w].username != self@[i as int].username);
                        } else if w > i as int {
                            assert(self@[i as int].username != self@[w].username);
                        }
                    }
                }
                return Ok(Some(u));
            }
            i = i + 1;
        }
        Ok(None)
    }

    /// Looks a user up by email alone (unique under `wf`).
    pub fn find_by_email(&self, email: &str) -> (r: CustomResult<Option<User>>)
        requires
            self.wf(),
        ensures
            r is Ok,
            r matches Ok(opt) ==> {
                &&& opt is Some <==> email_taken(self@, email@)
                &&& opt matches Some(u) ==> 0 <= e_idx(self@, email@) < self@.len() && u@ == self@[
                    e_idx(self@, email@)]
            },
    {
        let em = String::from_str(email);
        let n = self.users.len();
        let mut i: usize = 0;
        while i < n
            invariant
                self.wf(),
                0 <= i <= n,
                n == self@.len(),
                em@ == email@,
                forall|k: int| 0 <= k < i ==> #[trigger] self@[k].email != email@,
            decreases n - i,
        {
            proof {
                assert(self@[i as int] == self.users@[i as int]@);
            }
            if self.users[i].email == em {
                let u = self.users[i].duplicate();
                proof {
                    assert(self@[i as int].email == email@);
                    assert(email_taken(self@, email@));
                    let w = e_idx(self@, email@);
                    assert(0 <= w < self@.len() && self@[w].email == email@);
                    assert(w == i as int) by {
                        if w < i as int {
                            assert(self@[w].email != self@[i as int].email);
                        } else if w > i as int {
                            assert(self@[i as int].email != self@[w].email);
                        }
                    }
                }
                return Ok(Some(u));
            }
            i = i + 1;
        }
        Ok(None)
    }

    /// The position of the record with id `user_id`, if any.
    fn find_index_by_id(&self, user_id: i32) -> (r: Option<usize>)
        requires
            self.wf(),
        ensures
            r is Some <==> contains_user_id(self@, user_id as int),
            r matches Some(idx) ==> 0 <= idx < self@.len() && self@[idx as int].id == user_id as int
                && idx as int == user_idx_of(self@, user_id as int),
    {
        let n = self.users.len();
        let mut i: usize = 0;
        while i < n
            invariant
                self.wf(),
                0 <= i <= n,
                n == self@.len(),
                forall|k: int| 0 <= k < i ==> #[trigger] self@[k].id != user_id as int,
            decreases n - i,
        {
            proof {
                assert(self@[i as int] == self.users@[i as int]@);
            }
            if self.users[i].id == user_id {
                proof {
                    assert(self@[i as int].id == user_id as int);
                    assert(contains_user_id(self@, user_id as int));
                    let w = user_idx_of(self@, user_id as int);
                    assert(0 <= w < self@.len() && self@[w].id == user_id as int);
                    if w < i as int {
                        lemma_distinct_ids(self, w, i as int);
                    } else if w > i as int {
                        lemma_distinct_ids(self, i as int, w);
                    }
                }
                return Some(i);
            }
            i = i + 1;
        }
        None
    }

    /// Whether a record other than the one at `excl` has this username.
    fn username_taken_excluding(&self, name: &String, excl: usize) -> (b: bool)
        ensures
            b == username_taken_by_other(self@, excl as int, name@),
    {
        let n = self.users.len();
        let mut i: usize = 0;
        while i < n
            invariant
                0 <= i <= n,
                n == self@.len(),
                forall|k: int|
                    0 <= k < i && k != excl as int ==> #[trigger] self@[k].username != name@,
            decreases n - i,
        {
            proof {
                assert(self@[i as int] == self.users@[i as int]@);
            }
            if i != excl && self.users[i].username == *name {
                proof {
                    assert(self@[i as int].username == name@);
                }
                return true;
            }
            i = i + 1;
        }
        false
    }

    /// Whether a record other than the one at `excl` has this email.
    fn email_taken_excluding(&self, email: &String, excl: usize) -> (b: bool)
        ensures
            b == email_taken_by_other(self@, excl as int, email@),
    {
        let n = self.users.len();
        let mut i: usize = 0;
        while i < n
            invariant
                0 <= i <= n,
                n == self@.len(),
                forall|k: int|
                    0 <= k < i && k != excl as int ==> #[trigger] self@[k].email != email@,
            decreases n - i,
        {
            proof {
                assert(self@[i as int] == self.users@[i as int]@);
            }
            if i != excl && self.users[i].email == *email {
                proof {
                    assert(self@[i as int].email == email@);
                }
                return true;
            }
            i = i + 1;
        }
        false
    }

    /// Applies a partial profile update to the user with id `user_id`:
    /// present fields overwrite, absent fields stay, `updated_at` is
    /// refreshed. Fails with `NotFound` for an unknown id and with
    /// `Conflict` when a new username or email would collide with another
    /// record; on failure the store is unchanged.
    pub fn update_my_profile(
        &mut self,
        user_id: i32,
        req: UpdateMyProfileRequest,
        new_password_hash: Option<String>,
        now: i64,
    ) -> (r: CustomResult<User>)
        requires
            old(self).wf(),
        ensures
            final(self).wf(),
            final(self).spec_next_id() == old(self).spec_next_id(),
            r is Ok <==> update_accepted(
                old(self)@,
                user_id as int,
                opt_view(req.username),
                opt_view(req.email),
            ),
            r matches Ok(u) ==> {
                let idx = user_idx_of(old(self)@, user_id as int);
                &&& u@ == updated_user(
                    old(self)@[idx],
                    opt_view(req.username),
                    opt_view(req.email),
                    opt_view(new_password_hash),
                    None,
                    now as int,
                )
                &&& final(self)@ == old(self)@.update(idx, u@)
            },
            r is Err ==> final(self)@ == old(self)@,
            r matches Err(e) ==> if !contains_user_id(old(self)@, user_id as int) {
                e is NotFound
            } else {
                e is Conflict
            },
    {
        self.apply_update(user_id, req.username, req.email, new_password_hash, None, now)
    }

    /// Applies an administrator's partial update to the user with id
    /// `user_id`: like a profile update, and the role too may be replaced.
    /// A role outside "user"/"admin" fails with `BadRequest`; the other
    /// failure cases are those of a profile update. On failure the store is
    /// unchanged.
    pub fn update_user_by_admin(
        &mut self,
        user_id: i32,
        req: UpdateUserRequest,
        new_password_hash: Option<String>,
        now: i64,
    ) -> (r: CustomResult<User>)
        requires
            old(self).wf(),
        ensures
            final(self).wf(),
            final(self).spec_next_id() == old(self).spec_next_id(),
            r is Ok <==> (req.role matches Some(ro) ==> (ro@ == "user"@ || ro@ == "admin"@))
                && update_accepted(
                old(self)@,
                user_id as int,
                opt_view(req.username),
                opt_view(req.email),
            ),
            r matches Ok(u) ==> {
                let idx = user_idx_of(old(self)@, user_id as int);
                &&& u@ == updated_user(
                    old(self)@[idx],
                    opt_view(req.username),
                    opt_view(req.email),
                    opt_view(new_password_hash),
                    role_of_opt(req.role),
                    now as int,
                )
                &&& final(self)@ == old(self)@.update(idx, u@)
            },
            r is Err ==> final(self)@ == old(self)@,
            r matches Err(e) ==> if !contains_user_id(old(self)@, user_id as int) {
                e is NotFound
            } else if !(req.role matches Some(ro) ==> (ro@ == "user"@ || ro@ == "admin"@)) {
                e is BadRequest
            } else {
                e is Conflict
            },
    {
        let role: Option<Role> = match &req.role {
            Some(ro) => {
                if str_eq(ro.as_str(), "admin") {
                    Some(Role::Admin)
                } else if str_eq(ro.as_str(), "user") {
                    Some(Role::User)
                } else {
                    if !self.contains_id(user_id) {
                        return Err(CustomError::NotFound(String::from_str("the user was not found")));
                    }
                    return Err(
                        CustomError::BadRequest(
                            String::from_str(
                                "the specified role is invalid; it must be 'user' or 'admin'",
                            ),
                        ),
                    );
                }
            },
            None => None,
        };
        self.apply_update(user_id, req.username, req.email, new_password_hash, role, now)
    }

    /// Whether a record with this id exists.
    fn contains_id(&self, user_id: i32) -> (b: bool)
        requires
            self.wf(),
        ensures
            b == contains_user_id(self@, user_id as int),
    {
        self.find_index_by_id(user_id).is_some()
    }

    /// The shared mutation path of the two update operations.
    fn apply_update(
        &mut self,
        user_id: i32,
        username: Option<String>,
        email: Option<String>,
        new_password_hash: Option<String>,
        role: Option<Role>,
        now: i64,
    ) -> (r: CustomResult<User>)
        requires
            old(self).wf(),
        ensures
            final(self).wf(),
            final(self).spec_next_id() == old(self).spec_next_id(),
            r is Ok <==> update_accepted(
                old(self)@,
                user_id as int,
                opt_view(username),
                opt_view(email),
            ),
            r matches Ok(u) ==> {
                let idx = user_idx_of(old(self)@, user_id as int);
                &&& u@ == updated_user(
                    old(self)@[idx],
                    opt_view(username),
                    opt_view(email),
                    opt_view(new_password_hash),
                    role,
                    now as int,
                )
                &&& final(self)@ == old(self)@.update(idx, u@)
            },
            r is Err ==> final(self)@ == old(self)@,
            r matches Err(e) ==> if !contains_user_id(old(self)@, user_id as int) {
                e is NotFound
            } else {
                e is Conflict
            },
    {
        let idx = match self.find_index_by_id(user_id) {
            Some(idx) => idx,
            None => {
                return Err(CustomError::NotFound(String::from_str("the user was not found")));
            },
        };
        if let Some(name) = &username {
            if self.username_taken_excluding(name, idx) {
                return Err(
                    CustomError::Conflict(String::from_str("the username is already taken")),
                );
            }
        }
        if let Some(em) = &email {
            if self.email_taken_excluding(em, idx) {
                return Err(CustomError::Conflict(String::from_str("the email is already taken")));
            }
        }
        let cur = &self.users[idx];
        let new_user = User {
            id: cur.id,
            username: match username {
                Some(n) => n,
                None => cur.username.clone(),
            },
            email: match email {
                Some(e) => e,
                None => cur.email.clone(),
            },
            password_hash: match new_password_hash {
                Some(h) => h,
                None => cur.password_hash.clone(),
            },
            role: match role {
                Some(ro) => ro,
                None => cur.role,
            },
            created_at: cur.created_at,
            updated_at: now,
        };
        let copy = new_user.duplicate();
        self.users[idx] = new_user;
        proof {
            let s = old(self)@;
            let i = idx as int;
            assert(self@ =~= s.update(i, copy@));
            assert forall|a: int, b: int|
                0 <= a < b < self@.len() implies self@[a].username != self@[b].username by {
                if a != i && b != i {
                    assert(s[a].username != s[b].username);
                }
            }
            assert forall|a: int, b: int|
                0 <= a < b < self@.len() implies self@[a].email != self@[b].email by {
                if a != i && b != i {
                    assert(s[a].email != s[b].email);
                }
            }
            assert forall|a: int, b: int|
                0 <= a < b < self@.len() implies #[trigger] self@[a].id != #[trigger] self@[b].id by {
                if a != i && b != i {
                    assert(s[a].id != s[b].id);
                }
            }
        }
        Ok(copy)
    }

    /// Deletes the user with id `user_id`. Fails with `NotFound` exactly
    /// when the id does not exist; on failure the store is unchanged.
    pub fn delete_user(&mut self, user_id: i32) -> (r: CustomResult<()>)
        requires
            old(self).wf(),
        ensures
            final(self).wf(),
            final(self).spec_next_id() == old(self).spec_next_id(),
            r is Ok <==> contains_user_id(old(self)@, user_id as int),
            r is Ok ==> final(self)@ == old(self)@.remove(
                user_idx_of(old(self)@, user_id as int),
            ),
            r matches Err(e) ==> final(self)@ == old(self)@ && e is NotFound,
    {
        let idx = match self.find_index_by_id(user_id) {
            Some(idx) => idx,
            None => {
                return Err(
                    CustomError::NotFound(
                        String::from_str("the user was not found or is already deleted"),
                    ),
                );
            },
        };
        self.users.remove(idx);
        proof {
            let s = old(self)@;
            let i = idx as int;
            assert(self@ =~= s.remove(i));
            assert(forall|k: int|
                0 <= k < self@.len() ==> #[trigger] self@[k] == if k < i {
                    s[k]
                } else {
                    s[k + 1]
                });
        }
        Ok(())
    }

    /// Deletes every user whose id is in `user_ids` and returns how many
    /// records were removed; ids that do not exist are skipped.
    pub fn delete_users_by_ids(&mut self, user_ids: Vec<i32>) -> (r: CustomResult<u64>)
        requires
            old(self).wf(),
        ensures
            final(self).wf(),
            final(self).spec_next_id() == old(self).spec_next_id(),
            r is Ok,
            final(self)@ == old(self)@.filter(
                |u: UserView| !id_in_list(user_ids@, u.id),
            ),
            r matches Ok(n) ==> n == old(self)@.len() - final(self)@.len(),
    {
        let ghost pred = |u: UserView| !id_in_list(user_ids@, u.id);
        let old_len = self.users.len();
        let mut kept: Vec<User> = Vec::new();
        let mut i: usize = 0;
        proof {
            assert(kept@.map_values(|u: User| u@) =~= self@.subrange(0, 0).filter(pred));
        }
        while i < old_len
            invariant
                self.wf(),
                0 <= i <= old_len,
                old_len == self@.len(),
                kept@.map_values(|u: User| u@) == self@.subrange(0, i as int).filter(pred),
                pred == (|u: UserView| !id_in_list(user_ids@, u.id)),
            decreases old_len - i,
        {
            proof {
                assert(self@[i as int] == self.users@[i as int]@);
            }
            let keep = !ids_contain(&user_ids, self.users[i].id);
            proof {
                reveal(Seq::filter);
                let p = self@.subrange(0, i + 1);
                assert(p.drop_last() =~= self@.subrange(0, i as int));
                assert(p.last() == self@[i as int]);
            }
            if keep {
                kept.push(self.users[i].duplicate());
                proof {
                    assert(kept@.map_values(|u: User| u@) =~= self@.subrange(0, i as int).filter(
                        pred,
                    ).push(self@[i as int]));
                }
            }
            i = i + 1;
        }
        proof {
            assert(self@.subrange(0, old_len as int) =~= self@);
        }
        let new_len = kept.len();
        self.users = kept;
        proof {
            let s = old(self)@;
            lemma_filter_pairwise(s, pred, |a: UserView, b: UserView| a.username != b.username);
            lemma_filter_pairwise(s, pred, |a: UserView, b: UserView| a.email != b.email);
            lemma_filter_pairwise(s, pred, |a: UserView, b: UserView| a.id != b.id);
            lemma_filter_elementwise(
                s,
                pred,
                |u: UserView| 0 < u.id < old(self).spec_next_id(),
            );
            assert forall|a: int, b: int|
                0 <= a < b < self@.len() implies #[trigger] self@[a].id != #[trigger] self@[b].id by {
                assert((|a: UserView, b: UserView| a.id != b.id)(self@[a], self@[b]));
            }
            assert forall|k: int|
                0 <= k < self@.len() implies 0 < #[trigger] self@[k].id < self.spec_next_id() by {
                assert((|u: UserView| 0 < u.id < old(self).spec_next_id())(self@[k]));
            }
            assert forall|a: int, b: int|
                0 <= a < b < self@.len() implies self@[a].username != self@[b].username by {
                assert((|a: UserView, b: UserView| a.username != b.username)(self@[a], self@[b]));
            }
            assert forall|a: int, b: int|
                0 <= a < b < self@.len() implies self@[a].email != self@[b].email by {
                assert((|a: UserView, b: UserView| a.email != b.email)(self@[a], self@[b]));
            }
        }
        Ok((old_len - new_len) as u64)
    }

    /// One page of the user listing, in insertion order, as public
    /// profiles, together with the page count, the requested page, and the
    /// total number of users.
    pub fn get_all_users(&self, page: u64, page_size: u64) -> (r: CustomResult<
        (Vec<UserInfo>, u64, u64, u64),
    >)
        requires
            self.wf(),
            page_size >= 1,
        ensures
            r is Ok,
            r matches Ok(out) ==> {
                let pg = spec_page(self@, eff_page(page as nat), page_size as nat);
                &&& out.0@.len() == pg.len()
                &&& forall|k: int| 0 <= k < pg.len() ==> info_matches(#[trigger] out.0@[k], pg[k])
                &&& out.1 == spec_num_pages(self@.len(), page_size as nat)
                &&& out.2 == page
                &&& out.3 == self@.len()
            },
    {
        let total = self.users.len();
        let (start, end) = page_bounds(total, page, page_size);
        let mut items: Vec<UserInfo> = Vec::new();
        let mut i: usize = start;
        while i < end
            invariant
                self.wf(),
                start <= i <= end,
                end <= total,
                total == self@.len(),
                items@.len() == i - start,
                forall|k: int|
                    0 <= k < items@.len() ==> info_matches(
                        #[trigger] items@[k],
                        self@[start + k],
                    ),
            decreases end - i,
        {
            proof {
                assert(self@[i as int] == self.users@[i as int]@);
            }
            items.push(self.users[i].to_user_info());
            i = i + 1;
        }
        let pages = num_pages(total as u64, page_size);
        proof {
            let pg = spec_page(self@, eff_page(page as nat), page_size as nat);
            assert(pg =~= self@.subrange(start as int, end as int));
            assert(forall|k: int| 0 <= k < pg.len() ==> pg[k] == self@[start + k]);
        }
        Ok((items, pages, page, total as u64))
    }
}

/// The view of an optional string.
pub open spec fn opt_view(o: Option<String>) -> Option<Seq<char>> {
    match o {
        Some(s) => Some(s@),
        None => None,
    }
}

/// The role an optional role string denotes, for the two accepted values.
pub open spec fn role_of_opt(o: Option<String>) -> Option<Role> {
    match o {
        Some(s) => if s@ == "admin"@ {
            Some(Role::Admin)
        } else {
            Some(Role::User)
        },
        None => None,
    }
}

/// Whether a record other than the one at `excl` has username `name`.
pub open spec fn username_taken_by_other(s: Seq<UserView>, excl: int, name: Seq<char>) -> bool {
    exists|j: int| 0 <= j < s.len() && j != excl && #[trigger] s[j].username == name
}

/// Whether a record other than the one at `excl` has email `email`.
pub open spec fn email_taken_by_other(s: Seq<UserView>, excl: int, email: Seq<char>) -> bool {
    exists|j: int| 0 <= j < s.len() && j != excl && #[trigger] s[j].email == email
}

/// Whether an update addressed to `id` with these new identifiers goes
/// through: the id must exist, and a new username or email must not
/// collide with another record.
pub open spec fn update_accepted(
    s: Seq<UserView>,
    id: int,
    username: Option<Seq<char>>,
    email: Option<Seq<char>>,
) -> bool {
    &&& contains_user_id(s, id)
    &&& (username matches Some(n) ==> !username_taken_by_other(s, user_idx_of(s, id), n))
    &&& (email matches Some(e) ==> !email_taken_by_other(s, user_idx_of(s, id), e))
}

/// The record that a partial update produces: present fields overwrite,
/// absent fields stay, `updated_at` becomes `now`.
pub open spec fn updated_user(
    u: UserView,
    username: Option<Seq<char>>,
    email: Option<Seq<char>>,
    password_hash: Option<Seq<char>>,
    role: Option<Role>,
    now: int,
) -> UserView {
    UserView {
        id: u.id,
        username: match username {
            Some(n) => n,
            None => u.username,
        },
        email: match email {
            Some(e) => e,
            None => u.email,
        },
        password_hash: match password_hash {
            Some(h) => h,
            None => u.password_hash,
        },
        role: match role {
            Some(ro) => ro,
            None => u.role,
        },
        created_at: u.created_at,
        updated_at: now,
    }
}

/// Whether `id` occurs in a list of ids.
pub open spec fn id_in_list(ids: Seq<i32>, id: int) -> bool {
    exists|k: int| 0 <= k < ids.len() && #[trigger] ids[k] == id
}

/// Whether a profile matches a stored record, field for field.
pub open spec fn info_matches(i: UserInfo, u: UserView) -> bool {
    &&& i.id == u.id
    &&& i.username@ == u.username
    &&& i.email@ == u.email
    &&& i.role@ == spec_role_str(u.role)
    &&& i.created_at == u.created_at
}

/// A taken username or email is in particular a taken identifier: the
/// handler-level duplicate checks cover the store-level ones.
pub proof fn lemma_taken_is_ident_taken(s: Seq<UserView>, x: Seq<char>)
    ensures
        username_taken(s, x) ==> ident_taken(s, x),
        email_taken(s, x) ==> ident_taken(s, x),
{
    if username_taken(s, x) {
        let i = choose|i: int| 0 <= i < s.len() && #[trigger] s[i].username == x;
        assert(matches_ident(s[i], x));
    }
    if email_taken(s, x) {
        let i = choose|i: int| 0 <= i < s.len() && #[trigger] s[i].email == x;
        assert(matches_ident(s[i], x));
    }
}

/// Uniqueness of identities: in a well-formed store no two records share
/// an id, a username or an email — and every operation of the store
/// keeps the store well formed, so no duplicate identity is ever
/// persisted.
pub proof fn lemma_identities_unique(repo: &UserRepository, a: int, b: int)
    requires
        repo.wf(),
        0 <= a < b < repo@.len(),
    ensures
        repo@[a].id != repo@[b].id,
        repo@[a].username != repo@[b].username,
        repo@[a].email != repo@[b].email,
{
}

/// Partial updates are the identity on absent fields: an update that
/// carries no field at all leaves username, email, password hash and role
/// unchanged, and still advances `updated_at`.
pub proof fn lemma_empty_update_preserves_identity(u: UserView, now: int)
    ensures
        updated_user(u, None, None, None, None, now).username == u.username,
        updated_user(u, None, None, None, None, now).email == u.email,
        updated_user(u, None, None, None, None, now).password_hash == u.password_hash,
        updated_user(u, None, None, None, None, now).role == u.role,
        updated_user(u, None, None, None, None, now).created_at == u.created_at,
        updated_user(u, None, None, None, None, now).updated_at == now,
        updated_user(u, None, None, None, None, now).id == u.id,
{
}

/// Whether `id` occurs in a list of ids.
fn ids_contain(ids: &Vec<i32>, id: i32) -> (b: bool)
    ensures
        b == id_in_list(ids@, id as int),
{
    let n = ids.len();
    let mut i: usize = 0;
    while i < n
        invariant
            0 <= i <= n,
            n == ids@.len(),
            forall|k: int| 0 <= k < i ==> #[trigger] ids@[k] != id,
        decreases n - i,
    {
        if ids[i] == id {
            return true;
        }
        i = i + 1;
    }
    false
}

} // verus!
