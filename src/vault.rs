//! The store: accounts, and secret entries scoped to the account that owns
//! them. Every entry operation takes its owner from a validated token.
use crate::credential::{hash_password, password_matches, verify_password};
use crate::model::{
    response_of, user_response_of, AppError, NewPassword, NewUser, Password, PasswordResponse, User,
    UserResponse,
};
use crate::token::{
    claims_outcome, expiry_of, id_text, issue_token, signed_token, token_claims, validate_token,
    validates_until, TOKEN_LIFETIME_SECS,
};
use vstd::prelude::*;

verus! {

/// Some account in `users` has the username `name`.
pub open spec fn username_taken(users: Seq<User>, name: Seq<char>) -> bool {
    exists|i: int| 0 <= i < users.len() && #[trigger] users[i].username@ == name
}

/// Some account in `users` has the identifier `id`.
pub open spec fn id_taken(users: Seq<User>, id: u128) -> bool {
    exists|i: int| 0 <= i < users.len() && #[trigger] users[i].id == id
}

/// `password` verifies against the account registered as `name`.
pub open spec fn credentials_ok(users: Seq<User>, name: Seq<char>, password: Seq<char>) -> bool {
    exists|i: int|
        0 <= i < users.len() && #[trigger] users[i].username@ == name && password_matches(
            password,
            users[i].hashed_password@,
        )
}

/// `token` is what login at `now` issues for the account registered as
/// `name` whose stored hash `password` verifies: signed with `secret`, and
/// (for a time not long before the epoch) validating to that account's
/// identifier until it expires.
pub open spec fn token_for(
    users: Seq<User>,
    secret: Seq<char>,
    name: Seq<char>,
    password: Seq<char>,
    now: i64,
    token: Seq<char>,
) -> bool {
    exists|i: int|
        0 <= i < users.len() && #[trigger] users[i].username@ == name && password_matches(
            password,
            users[i].hashed_password@,
        ) && expiry_of(now) is Some && token == signed_token(
            id_text(users[i].id),
            expiry_of(now)->Some_0,
            secret,
        ) && (now >= -TOKEN_LIFETIME_SECS ==> validates_until(
            token_claims(token, secret),
            users[i].id,
            expiry_of(now)->Some_0,
        ))
}

/// Some entry in `entries` has the identifier `id`.
pub open spec fn entry_id_taken(entries: Seq<Password>, id: u128) -> bool {
    exists|i: int| 0 <= i < entries.len() && #[trigger] entries[i].id == id
}

/// The entries of `entries` owned by `owner`, in stored order.
pub open spec fn owned_by(entries: Seq<Password>, owner: u128) -> Seq<Password> {
    entries.filter(|p: Password| p.user_id == owner)
}

/// `p` is owned by `owner` and labelled `key`.
pub open spec fn is_match(p: Password, owner: u128, key: Seq<char>) -> bool {
    p.user_id == owner && p.key@ == key
}

/// How many entries of `entries` are owned by `owner` and labelled `key`.
pub open spec fn match_count(entries: Seq<Password>, owner: u128, key: Seq<char>) -> nat
    decreases entries.len(),
{
    if entries.len() == 0 {
        0
    } else {
        match_count(entries.drop_last(), owner, key) + if is_match(entries.last(), owner, key) {
            1nat
        } else {
            0nat
        }
    }
}

/// `after` is `before` with the one entry owned by `owner` and labelled `key`
/// taken out, and `resp` is that entry's projection.
pub open spec fn removed_one(
    before: Seq<Password>,
    after: Seq<Password>,
    owner: u128,
    key: Seq<char>,
    resp: PasswordResponse,
) -> bool {
    &&& match_count(before, owner, key) == 1
    &&& exists|i: int|
        0 <= i < before.len() && #[trigger] is_match(before[i], owner, key) && after
            == before.remove(i) && resp == response_of(before[i])
}

/// The process-wide context: registered accounts, stored entries and the
/// secret that signs session tokens.
pub struct AppState {
    pub users: Vec<User>,
    pub passwords: Vec<Password>,
    pub jwt_secret: String,
}

/// Relies on uuid's `Uuid::new_v4`: the bits of a random identifier.
#[verifier::external_body]
fn fresh_id() -> (r: u128) {
    uuid::Uuid::new_v4().as_u128()
}

/// Relies on chrono's `Utc::now().timestamp()`: the current time in seconds.
#[verifier::external_body]
fn now_seconds() -> (r: i64) {
    chrono::Utc::now().timestamp()
}

impl AppState {
    /// Usernames and account identifiers are unique.
    pub open spec fn well_formed(&self) -> bool {
        forall|i: int, j: int|
            0 <= i < j < self.users@.len() ==> #[trigger] self.users@[i].username@
                != #[trigger] self.users@[j].username@ && self.users@[i].id != self.users@[j].id
    }

    /// An empty store whose tokens are signed with `jwt_secret`.
    pub fn new(jwt_secret: String) -> (r: AppState)
        ensures
            r.users@.len() == 0,
            r.passwords@.len() == 0,
            r.jwt_secret == jwt_secret,
            r.well_formed(),
    {
        AppState { users: Vec::new(), passwords: Vec::new(), jwt_secret }
    }

    /// The position of the account registered as `name`.
    pub fn find_user(&self, name: &str) -> (r: Option<usize>)
        ensures
            r matches Some(i) ==> i < self.users@.len() && self.users@[i as int].username@ == name@,
            r is None ==> !username_taken(self.users@, name@),
    {
        let mut i: usize = 0;
        while i < self.users.len()
            invariant
                i <= self.users@.len(),
                forall|k: int| 0 <= k < i ==> #[trigger] self.users@[k].username@ != name@,
            decreases self.users@.len() - i,
        {
            if self.users[i].username == name.to_owned() {
                return Some(i);
            }
            i = i + 1;
        }
        None
    }

    /// Registers `username_param` with the hash of `password_param`. A taken
    /// username is a conflict; on any failure the store is unchanged.
    pub fn register(&mut self, username_param: String, password_param: String) -> (r: Result<
        UserResponse,
        AppError,
    >)
        requires
            old(self).well_formed(),
        ensures
            final(self).well_formed(),
            final(self).passwords == old(self).passwords,
            final(self).jwt_secret == old(self).jwt_secret,
            r matches Err(AppError::Conflict(_)) <==> username_taken(
                old(self).users@,
                username_param@,
            ),
            r is Err ==> final(self).users@ == old(self).users@,
            r matches Ok(u) ==> {
                &&& final(self).users@.len() == old(self).users@.len() + 1
                &&& final(self).users@.drop_last() == old(self).users@
                &&& final(self).users@.last().username == username_param
                &&& password_matches(password_param@, final(self).users@.last().hashed_password@)
                &&& !id_taken(old(self).users@, u.id)
                &&& u == user_response_of(final(self).users@.last())
            },
    {
        if self.find_user(username_param.as_str()).is_some() {
            return Err(AppError::Conflict(String::from_str("Username may already be taken.")));
        }
        let hashed = hash_password(password_param.as_str());
        let id = fresh_id();
        let now = now_seconds();
        self.register_with(username_param, hashed, id, now)
    }

    /// Registration once the password has been hashed (`hashed`, or the
    /// hasher's error) and an identifier `id` and the time `now` drawn: a
    /// taken username is a conflict, a failed hash passes its error on, an
    /// identifier already in use is an internal error, and otherwise the
    /// account is added. On any error the store is unchanged.
    pub fn register_with(
        &mut self,
        username_param: String,
        hashed: Result<String, AppError>,
        id: u128,
        now: i64,
    ) -> (r: Result<UserResponse, AppError>)
        requires
            old(self).well_formed(),
        ensures
            final(self).well_formed(),
            final(self).passwords == old(self).passwords,
            final(self).jwt_secret == old(self).jwt_secret,
            r is Err ==> final(self).users@ == old(self).users@,
            username_taken(old(self).users@, username_param@) ==> r matches Err(
                AppError::Conflict(_),
            ),
            !username_taken(old(self).users@, username_param@) ==> match hashed {
                Err(e) => r == Err::<UserResponse, AppError>(e),
                Ok(h) => if id_taken(old(self).users@, id) {
                    r matches Err(AppError::InternalServerError(_))
                } else {
                    let u = User { id, username: username_param, hashed_password: h, created_at: now };
                    &&& final(self).users@ == old(self).users@.push(u)
                    &&& r == Ok::<UserResponse, AppError>(user_response_of(u))
                },
            },
    {
        if self.find_user(username_param.as_str()).is_some() {
            return Err(AppError::Conflict(String::from_str("Username may already be taken.")));
        }
        let hashed_password = match hashed {
            Ok(h) => h,
            Err(e) => return Err(e),
        };
        if self.id_in_use(id) {
            return Err(AppError::InternalServerError(String::from_str("identifier collision")));
        }
        Ok(self.insert_user(NewUser { username: username_param, hashed_password }, id, now))
    }

    /// Stores a new account with identifier `id`, created at `now`.
    pub fn insert_user(&mut self, new_user: NewUser, id: u128, now: i64) -> (r: UserResponse)
        requires
            old(self).well_formed(),
            !username_taken(old(self).users@, new_user.username@),
            !id_taken(old(self).users@, id),
        ensures
            final(self).well_formed(),
            final(self).passwords == old(self).passwords,
            final(self).jwt_secret == old(self).jwt_secret,
            final(self).users@ == old(self).users@.push(
                User {
                    id,
                    username: new_user.username,
                    hashed_password: new_user.hashed_password,
                    created_at: now,
                },
            ),
            r == user_response_of(final(self).users@.last()),
    {
        let ghost name = new_user.username@;
        let resp = UserResponse { id, username: new_user.username.clone(), created_at: now };
        let user = User {
            id,
            username: new_user.username,
            hashed_password: new_user.hashed_password,
            created_at: now,
        };
        let ghost before = self.users@;
        self.users.push(user);
        proof {
            assert forall|i: int, j: int| 0 <= i < j < self.users@.len() implies #[trigger] self.users@[i].username@
                != #[trigger] self.users@[j].username@ && self.users@[i].id != self.users@[j].id by {
                assert(self.users@[i] == before[i]);
                if j == before.len() {
                    assert(self.users@[j].username@ == name);
                    assert(!(before[i].username@ == name));
                    assert(before[i].id != id);
                } else {
                    assert(self.users@[j] == before[j]);
                    assert(old(self).users@[i].username@ != old(self).users@[j].username@);
                }
            }
        }
        resp
    }

    /// Issues a session token to the account registered as `username_param`
    /// if `password_param` verifies against it. An unknown username and a
    /// wrong password give the same error.
    pub fn login(&self, username_param: String, password_param: String) -> (r: Result<String, AppError>)
        requires
            self.well_formed(),
        ensures
            r matches Err(AppError::InvalidCredentials) <==> !credentials_ok(
                self.users@,
                username_param@,
                password_param@,
            ),
            credentials_ok(self.users@, username_param@, password_param@) ==> r is Ok || r matches Err(
                AppError::InternalServerError(_),
            ),
            r matches Ok(t) ==> exists|now: i64|
                #[trigger] token_for(self.users@, self.jwt_secret@, username_param@, password_param@, now, t@),
    {
        let now = now_seconds();
        self.login_at(username_param, password_param, now)
    }

    /// Login at time `now`: the token for the account whose credentials
    /// verify, expiring one lifetime after `now`.
    pub fn login_at(&self, username_param: String, password_param: String, now: i64) -> (r: Result<
        String,
        AppError,
    >)
        requires
            self.well_formed(),
        ensures
            r matches Err(AppError::InvalidCredentials) <==> !credentials_ok(
                self.users@,
                username_param@,
                password_param@,
            ),
            credentials_ok(self.users@, username_param@, password_param@) && expiry_of(now) is None
                ==> r matches Err(AppError::InternalServerError(_)),
            credentials_ok(self.users@, username_param@, password_param@) && expiry_of(now) is Some
                ==> (r matches Ok(t) && token_for(self.users@, self.jwt_secret@, username_param@, password_param@, now, t@)),
    {
        let i = match self.find_user(username_param.as_str()) {
            Some(i) => i,
            None => return Err(AppError::InvalidCredentials),
        };
        let user = &self.users[i];
        proof {
            assert forall|j: int| 0 <= j < self.users@.len() && #[trigger] self.users@[j].username@ == username_param@
                implies j == i by {
                if j != i {
                    if j < i {
                        assert(self.users@[j].username@ != self.users@[i as int].username@);
                    } else {
                        assert(self.users@[i as int].username@ != self.users@[j].username@);
                    }
                }
            }
        }
        if !verify_password(password_param.as_str(), user.hashed_password.as_str()) {
            return Err(AppError::InvalidCredentials);
        }
        let r = issue_token(user.id, self.jwt_secret.as_str(), now);
        assert(self.users@[i as int].username@ == username_param@);
        assert(credentials_ok(self.users@, username_param@, password_param@));
        r
    }

    /// Stores a new entry with identifier `id`, created and updated at `now`.
    /// An identifier already held by a stored entry is an internal error, and
    /// then nothing is stored.
    pub fn insert_password(&mut self, entry: NewPassword, id: u128, now: i64) -> (r: Result<
        PasswordResponse,
        AppError,
    >)
        ensures
            final(self).users == old(self).users,
            final(self).jwt_secret == old(self).jwt_secret,
            entry_id_taken(old(self).passwords@, id) ==> (r matches Err(AppError::InternalServerError(_))
                && final(self).passwords == old(self).passwords),
            !entry_id_taken(old(self).passwords@, id) ==> final(self).passwords@ == old(
                self,
            ).passwords@.push(
                Password {
                    id,
                    key: entry.key,
                    value: entry.value,
                    created_at: now,
                    updated_at: now,
                    user_id: entry.user_id,
                    notes: entry.notes,
                },
            ) && r == Ok::<PasswordResponse, AppError>(response_of(final(self).passwords@.last())),
    {
        let mut i: usize = 0;
        while i < self.passwords.len()
            invariant
                i <= self.passwords@.len(),
                forall|k: int| 0 <= k < i ==> #[trigger] self.passwords@[k].id != id,
            decreases self.passwords@.len() - i,
        {
            if self.passwords[i].id == id {
                return Err(AppError::InternalServerError(String::from_str("identifier collision")));
            }
            i = i + 1;
        }
        let p = Password {
            id,
            key: entry.key,
            value: entry.value,
            created_at: now,
            updated_at: now,
            user_id: entry.user_id,
            notes: entry.notes,
        };
        let r = PasswordResponse::from(p.duplicate());
        self.passwords.push(p);
        Ok(r)
    }

    /// The entries owned by `owner`, in stored order.
    pub fn passwords_of(&self, owner: u128) -> (r: Vec<Password>)
        ensures
            r@ == owned_by(self.passwords@, owner),
    {
        let mut r: Vec<Password> = Vec::new();
        let mut i: usize = 0;
        while i < self.passwords.len()
            invariant
                i <= self.passwords@.len(),
                r@ == owned_by(self.passwords@.take(i as int), owner),
            decreases self.passwords@.len() - i,
        {
            let ghost pred = |p: Password| p.user_id == owner;
            proof {
                assert(self.passwords@.take(i + 1) =~= self.passwords@.take(i as int).push(self.passwords@[i as int]));
                self.passwords@.take(i as int).lemma_filter_push(self.passwords@[i as int], pred);
            }
            if self.passwords[i].user_id == owner {
                r.push(self.passwords[i].duplicate());
            }
            i = i + 1;
        }
        assert(self.passwords@.take(self.passwords@.len() as int) =~= self.passwords@);
        r
    }

    /// Deletes the one entry owned by `owner` and labelled `key`, and returns
    /// its projection. Where no entry, or more than one, matches, nothing is
    /// deleted and the result is `NotFound`.
    pub fn remove_password(&mut self, owner: u128, key: &str) -> (r: Result<PasswordResponse, AppError>)
        ensures
            final(self).users == old(self).users,
            final(self).jwt_secret == old(self).jwt_secret,
            r is Ok <==> match_count(old(self).passwords@, owner, key@) == 1,
            r matches Ok(resp) ==> removed_one(old(self).passwords@, final(self).passwords@, owner, key@, resp),
            r is Err ==> r == Err::<PasswordResponse, AppError>(AppError::NotFound) && final(self).passwords
                == old(self).passwords,
    {
        let ghost ps = self.passwords@;
        let mut count: usize = 0;
        let mut found: usize = 0;
        let mut i: usize = 0;
        while i < self.passwords.len()
            invariant
                ps == self.passwords@,
                i <= ps.len(),
                count == match_count(ps.take(i as int), owner, key@),
                count <= i,
                count > 0 ==> found < i && is_match(ps[found as int], owner, key@),
                count == 0 ==> forall|k: int| 0 <= k < i ==> !is_match(#[trigger] ps[k], owner, key@),
                count == 1 ==> forall|k: int| 0 <= k < i && k != found ==> !is_match(#[trigger] ps[k], owner, key@),
            decreases ps.len() - i,
        {
            proof {
                assert(ps.take(i + 1).drop_last() =~= ps.take(i as int));
            }
            if self.passwords[i].user_id == owner && self.passwords[i].key == key.to_owned() {
                if count == 0 {
                    found = i;
                }
                count = count + 1;
            }
            i = i + 1;
        }
        assert(ps.take(ps.len() as int) =~= ps);
        if count != 1 {
            return Err(AppError::NotFound);
        }
        let removed = self.passwords.remove(found);
        Ok(PasswordResponse::from(removed))
    }

    /// Stores a new entry for the account that `token` names, with a fresh
    /// identifier and the current time. An invalid or expired token leaves
    /// the store unchanged.
    pub fn create_password(
        &mut self,
        token: String,
        some_key: String,
        some_value: String,
        some_notes: Option<String>,
    ) -> (r: Result<PasswordResponse, AppError>)
        ensures
            final(self).users == old(self).users,
            final(self).jwt_secret == old(self).jwt_secret,
            r is Err ==> final(self).passwords == old(self).passwords,
            r matches Err(e) ==> (e matches AppError::InternalServerError(_)) || exists|now: i64|
                #[trigger] claims_outcome(token_claims(token@, old(self).jwt_secret@), now) == Err::<
                    u128,
                    AppError,
                >(e),
            r matches Ok(resp) ==> !entry_id_taken(old(self).passwords@, resp.id) && exists|now: i64|
                #[trigger] claims_outcome(token_claims(token@, old(self).jwt_secret@), now) == Ok::<
                    u128,
                    AppError,
                >(resp.user_id) && final(self).passwords@ == old(self).passwords@.push(
                    Password {
                        id: resp.id,
                        key: some_key,
                        value: some_value,
                        created_at: now,
                        updated_at: now,
                        user_id: resp.user_id,
                        notes: some_notes,
                    },
                ) && resp == response_of(final(self).passwords@.last()),
    {
        let now = now_seconds();
        let owner = match validate_token(token.as_str(), self.jwt_secret.as_str(), now) {
            Ok(o) => o,
            Err(e) => return Err(e),
        };
        let id = fresh_id();
        let entry = NewPassword { key: some_key, value: some_value, user_id: owner, notes: some_notes };
        self.insert_password(entry, id, now)
    }

    /// All entries owned by the account that `token` names.
    pub fn get_all_passwords(&self, token: String) -> (r: Result<Vec<Password>, AppError>)
        ensures
            r matches Err(e) ==> exists|now: i64|
                #[trigger] claims_outcome(token_claims(token@, self.jwt_secret@), now) == Err::<
                    u128,
                    AppError,
                >(e),
            r matches Ok(v) ==> exists|now: i64|
                #[trigger] claims_outcome(token_claims(token@, self.jwt_secret@), now) is Ok && v@
                    == owned_by(
                    self.passwords@,
                    claims_outcome(token_claims(token@, self.jwt_secret@), now)->Ok_0,
                ),
    {
        let now = now_seconds();
        let owner = match validate_token(token.as_str(), self.jwt_secret.as_str(), now) {
            Ok(o) => o,
            Err(e) => return Err(e),
        };
        Ok(self.passwords_of(owner))
    }

    /// Deletes the one entry labelled `some_key` that the account `token`
    /// names owns, and returns its projection. An invalid token, or a label
    /// that matches no entry or several, leaves the store unchanged.
    pub fn delete_password(&mut self, token: String, some_key: String) -> (r: Result<
        PasswordResponse,
        AppError,
    >)
        ensures
            final(self).users == old(self).users,
            final(self).jwt_secret == old(self).jwt_secret,
            r is Err ==> final(self).passwords == old(self).passwords,
            r matches Err(e) ==> exists|now: i64|
                #![trigger claims_outcome(token_claims(token@, old(self).jwt_secret@), now)]
                claims_outcome(token_claims(token@, old(self).jwt_secret@), now) == Err::<
                    u128,
                    AppError,
                >(e) || (e == AppError::NotFound && (claims_outcome(
                    token_claims(token@, old(self).jwt_secret@),
                    now,
                ) matches Ok(owner) && match_count(old(self).passwords@, owner, some_key@) != 1)),
            r matches Ok(resp) ==> exists|now: i64|
                #[trigger] claims_outcome(token_claims(token@, old(self).jwt_secret@), now) == Ok::<
                    u128,
                    AppError,
                >(resp.user_id) && removed_one(
                    old(self).passwords@,
                    final(self).passwords@,
                    resp.user_id,
                    some_key@,
                    resp,
                ),
    {
        let now = now_seconds();
        let owner = match validate_token(token.as_str(), self.jwt_secret.as_str(), now) {
            Ok(o) => o,
            Err(e) => return Err(e),
        };
        let r = self.remove_password(owner, some_key.as_str());
        proof {
            if r is Ok {
                let resp = r->Ok_0;
                let i = choose|i: int| 0 <= i < old(self).passwords@.len() && #[trigger] is_match(old(self).passwords@[i], owner, some_key@) && self.passwords@
                    == old(self).passwords@.remove(i) && resp == response_of(old(self).passwords@[i]);
                assert(resp.user_id == owner);
            }
        }
        r
    }

    /// Whether some account has the identifier `id`.
    pub fn id_in_use(&self, id: u128) -> (r: bool)
        ensures
            r == id_taken(self.users@, id),
    {
        let mut i: usize = 0;
        while i < self.users.len()
            invariant
                i <= self.users@.len(),
                forall|k: int| 0 <= k < i ==> #[trigger] self.users@[k].id != id,
            decreases self.users@.len() - i,
        {
            if self.users[i].id == id {
                return true;
            }
            i = i + 1;
        }
        false
    }
}

/// Entries that one account stores never show in another account's listing,
/// and never change which of another account's entries a label matches.
pub proof fn lemma_owner_isolation(entries: Seq<Password>, e: Password, other: u128, key: Seq<char>)
    requires
        e.user_id != other,
    ensures
        owned_by(entries.push(e), other) == owned_by(entries, other),
        match_count(entries.push(e), other, key) == match_count(entries, other, key),
{
    entries.lemma_filter_push(e, |p: Password| p.user_id == other);
    assert(entries.push(e).drop_last() =~= entries);
}

proof fn lemma_match_count_remove(s: Seq<Password>, i: int, owner: u128, key: Seq<char>)
    requires
        0 <= i < s.len(),
    ensures
        match_count(s.remove(i), owner, key) + (if is_match(s[i], owner, key) { 1nat } else { 0nat })
            == match_count(s, owner, key),
    decreases s.len(),
{
    if i == s.len() - 1 {
        assert(s.remove(i) =~= s.drop_last());
    } else {
        assert(s.remove(i).drop_last() =~= s.drop_last().remove(i));
        assert(s.remove(i).last() == s.last());
        lemma_match_count_remove(s.drop_last(), i, owner, key);
    }
}

/// Once the one entry with a label has been deleted, no entry of that owner
/// carries the label: deleting it again finds nothing.
pub proof fn lemma_delete_once(
    before: Seq<Password>,
    after: Seq<Password>,
    owner: u128,
    key: Seq<char>,
    resp: PasswordResponse,
)
    requires
        removed_one(before, after, owner, key, resp),
    ensures
        match_count(after, owner, key) == 0,
{
    let i = choose|i: int|
        0 <= i < before.len() && #[trigger] is_match(before[i], owner, key) && after == before.remove(i)
            && resp == response_of(before[i]);
    lemma_match_count_remove(before, i, owner, key);
}

/// Every entry in a listing belongs to the account it was asked for.
pub proof fn lemma_listing_owned(entries: Seq<Password>, owner: u128)
    ensures
        forall|i: int|
            0 <= i < owned_by(entries, owner).len() ==> #[trigger] owned_by(entries, owner)[i].user_id
                == owner,
{
    let pred = |p: Password| p.user_id == owner;
    assert forall|i: int| 0 <= i < owned_by(entries, owner).len() implies #[trigger] owned_by(entries, owner)[i].user_id == owner by {
        entries.lemma_filter_pred(pred, i);
    }
}

} // verus!
