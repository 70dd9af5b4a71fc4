//! Core of a personal credential manager: password generation, credential
//! hashing, stateless session tokens and an owner-scoped vault of secrets.
use vstd::prelude::*;

pub mod credential;
pub mod generator;
pub mod model;
pub mod token;
pub mod vault;

pub use credential::{hash_password, verify_password};
pub use generator::{default_password_length, generate_password};
pub use model::{
    AppError, NewPassword, NewUser, Password, PasswordResponse, User, UserResponse,
};
pub use token::{account_id_text, check_claims, issue_token, token_expiry, validate_token, Claims};
pub use vault::AppState;

verus! {

} // verus!
