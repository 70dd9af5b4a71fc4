//! Salted, memory-hard password hashing (Argon2) and its verification.
use crate::model::AppError;
use argon2::password_hash::SaltString;
use argon2::{Argon2, PasswordHash, PasswordHasher, PasswordVerifier};
use rand_core::OsRng;
use vstd::prelude::*;

verus! {

/// Whether `password` verifies against the self-describing hash `stored`;
/// false where `stored` does not parse.
pub uninterp spec fn password_matches(password: Seq<char>, stored: Seq<char>) -> bool;

#[verifier::external_type_specification]
#[verifier::external_body]
pub struct ExHashError(argon2::password_hash::Error);

/// Relies on password-hash's `SaltString::generate` over the operating
/// system's generator and on `Argon2::default().hash_password`: a fresh salt
/// per call and the PHC string of the derived hash, which verifies against
/// the password it was made from.
#[verifier::external_body]
fn argon2_hash(password: &str) -> (r: Result<String, argon2::password_hash::Error>)
    ensures
        r matches Ok(h) ==> password_matches(password@, h@),
{
    let salt = SaltString::generate(&mut OsRng);
    Argon2::default().hash_password(password.as_bytes(), &salt).map(|h| h.to_string())
}

/// Relies on `PasswordHash::new`, which reads the parameters and salt out of a
/// PHC string, and on `Argon2::default().verify_password`, which recomputes
/// the digest and compares it in constant time.
#[verifier::external_body]
fn argon2_verify(password: &str, stored: &str) -> (r: bool)
    ensures
        r == password_matches(password@, stored@),
{
    match PasswordHash::new(stored) {
        Ok(parsed) => Argon2::default().verify_password(password.as_bytes(), &parsed).is_ok(),
        Err(_) => false,
    }
}

/// Hashes `password` with a fresh random salt into one self-describing
/// string that verifies against `password`; a failure of the hasher is
/// reported as an internal error.
pub fn hash_password(password: &str) -> (r: Result<String, AppError>)
    ensures
        r matches Ok(h) ==> password_matches(password@, h@),
        r matches Err(e) ==> e matches AppError::InternalServerError(_),
{
    match argon2_hash(password) {
        Ok(h) => Ok(h),
        Err(_) => Err(AppError::InternalServerError(String::from_str("password hashing failed"))),
    }
}

/// Whether `password` verifies against `stored`; a corrupt `stored` does not
/// verify.
pub fn verify_password(password: &str, stored: &str) -> (r: bool)
    ensures
        r == password_matches(password@, stored@),
{
    argon2_verify(password, stored)
}

} // verus!
