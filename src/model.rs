//! The records the store holds and the errors its operations report.
//! Identifiers are 128-bit values (the bits of a UUID) and times are whole
//! seconds since the Unix epoch.
use vstd::prelude::*;

verus! {

/// Why an operation was refused.
#[derive(Debug, Clone, PartialEq, Eq)]
pub enum AppError {
    /// No record matched a scoped query.
    NotFound,
    /// The store refused a write.
    DatabaseError(String),
    /// A uniqueness rule was broken (a username already taken).
    Conflict(String),
    /// No connection to the store could be had.
    PoolError(String),
    /// The token is malformed, forged, or names no valid account.
    InvalidToken,
    /// No token was presented.
    MissingToken,
    /// The token was valid but its lifetime has passed.
    ExpiredToken,
    /// The username is unknown or the password does not match it.
    InvalidCredentials,
    /// A hashing, signing or identifier failure.
    InternalServerError(String),
}

/// A registered account.
#[derive(Debug, Clone, PartialEq)]
pub struct User {
    pub id: u128,
    pub username: String,
    pub hashed_password: String,
    pub created_at: i64,
}

/// What registration stores: a username and the hash of its password.
#[derive(Debug, Clone, PartialEq)]
pub struct NewUser {
    pub username: String,
    pub hashed_password: String,
}

/// An account as shown to callers: without its password hash.
#[derive(Debug, Clone, PartialEq)]
pub struct UserResponse {
    pub id: u128,
    pub username: String,
    pub created_at: i64,
}

/// A secret entry before it is stored.
#[derive(Debug, Clone, PartialEq)]
pub struct NewPassword {
    pub key: String,
    pub value: String,
    pub user_id: u128,
    pub notes: Option<String>,
}

/// A stored secret entry, owned by the account `user_id`.
#[derive(Debug, Clone, PartialEq)]
pub struct Password {
    pub id: u128,
    pub key: String,
    pub value: String,
    pub created_at: i64,
    pub updated_at: i64,
    pub user_id: u128,
    pub notes: Option<String>,
}

/// A secret entry as shown to callers: without its value.
#[derive(Debug, Clone, PartialEq)]
pub struct PasswordResponse {
    pub id: u128,
    pub key: String,
    pub created_at: i64,
    pub updated_at: i64,
    pub user_id: u128,
    pub notes: Option<String>,
}

/// The projection of an entry that leaves out its value.
pub open spec fn response_of(p: Password) -> PasswordResponse {
    PasswordResponse {
        id: p.id,
        key: p.key,
        created_at: p.created_at,
        updated_at: p.updated_at,
        user_id: p.user_id,
        notes: p.notes,
    }
}

/// The projection of an account that leaves out its password hash.
pub open spec fn user_response_of(u: User) -> UserResponse {
    UserResponse { id: u.id, username: u.username, created_at: u.created_at }
}

impl From<Password> for PasswordResponse {
    fn from(p: Password) -> (r: PasswordResponse)
        ensures
            r == response_of(p),
    {
        PasswordResponse {
            id: p.id,
            key: p.key,
            created_at: p.created_at,
            updated_at: p.updated_at,
            user_id: p.user_id,
            notes: p.notes,
        }
    }
}

impl vstd::std_specs::convert::FromSpecImpl<Password> for PasswordResponse {
    open spec fn obeys_from_spec() -> bool {
        true
    }

    open spec fn from_spec(p: Password) -> PasswordResponse {
        response_of(p)
    }
}

/// A copy of optional text.
pub fn copy_notes(n: &Option<String>) -> (r: Option<String>)
    ensures
        r == *n,
{
    match n {
        Some(s) => Some(s.clone()),
        None => None,
    }
}

impl Password {
    /// A copy of this entry, field for field.
    pub fn duplicate(&self) -> (r: Password)
        ensures
            r == *self,
    {
        Password {
            id: self.id,
            key: self.key.clone(),
            value: self.value.clone(),
            created_at: self.created_at,
            updated_at: self.updated_at,
            user_id: self.user_id,
            notes: copy_notes(&self.notes),
        }
    }
}

} // verus!
