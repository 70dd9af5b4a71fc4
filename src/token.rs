//! Stateless session tokens: a signed claim set naming an account and the
//! time at which the claim stops being accepted.
use crate::model::AppError;
use jsonwebtoken::{decode, encode, DecodingKey, EncodingKey, Header, Validation};
use vstd::prelude::*;

verus! {

/// Seconds for which an issued token is accepted.
pub const TOKEN_LIFETIME_SECS: i64 = 3600;

/// The lower-case hexadecimal digit for `d` (below 16).
pub open spec fn hex_digit(d: nat) -> char {
    "0123456789abcdef"@[d as int]
}

/// The `n` lowest hexadecimal digits of `v`, most significant first.
pub open spec fn hex_digits(v: nat, n: nat) -> Seq<char>
    decreases n,
{
    if n == 0 {
        Seq::empty()
    } else {
        hex_digits(v / 16, (n - 1) as nat).push(hex_digit(v % 16))
    }
}

/// The hyphenated text form of an account identifier: its 32 hexadecimal
/// digits in groups of 8, 4, 4, 4 and 12.
pub open spec fn id_text(id: u128) -> Seq<char> {
    let d = hex_digits(id as nat, 32);
    d.subrange(0, 8) + seq!['-'] + d.subrange(8, 12) + seq!['-'] + d.subrange(12, 16) + seq!['-']
        + d.subrange(16, 20) + seq!['-'] + d.subrange(20, 32)
}

/// The identifier that a text names, if it is one.
pub uninterp spec fn parsed_id(text: Seq<char>) -> Option<u128>;

/// The compact signed token for the claims `sub` and `exp` under `secret`.
pub uninterp spec fn signed_token(sub: Seq<char>, exp: i64, secret: Seq<char>) -> Seq<char>;

/// The subject and expiry read back from a token whose signature `secret`
/// verifies; `None` where it does not verify or is malformed.
pub uninterp spec fn token_claims(token: Seq<char>, secret: Seq<char>) -> Option<
    (Option<Seq<char>>, Option<i64>),
>;

#[verifier::external_type_specification]
#[verifier::external_body]
pub struct ExJwtError(jsonwebtoken::errors::Error);

#[verifier::external_type_specification]
#[verifier::external_body]
pub struct ExUuidError(uuid::Error);

/// The claims read from a token whose signature verified, each of them
/// absent where the token did not carry it in the expected form.
#[derive(Debug, Clone, PartialEq)]
pub struct Claims {
    pub sub: Option<String>,
    pub exp: Option<i64>,
}

/// The claims as plain values: the subject's characters and the expiry.
pub open spec fn claims_view(c: Claims) -> (Option<Seq<char>>, Option<i64>) {
    (
        match c.sub {
            Some(s) => Some(s@),
            None => None,
        },
        c.exp,
    )
}

/// Relies on uuid's `Uuid::from_u128` and its `Display`: the hyphenated text
/// of the identifier, which `Uuid::parse_str` reads back to the same value.
#[verifier::external_body]
fn format_id(id: u128) -> (r: String)
    ensures
        r@ == id_text(id),
        parsed_id(r@) == Some(id),
{
    uuid::Uuid::from_u128(id).to_string()
}

/// Relies on uuid's `Uuid::parse_str`: the identifier a text spells, or its
/// parse error.
#[verifier::external_body]
fn parse_id(text: &str) -> (r: Result<u128, uuid::Error>)
    ensures
        r is Ok <==> parsed_id(text@) is Some,
        r matches Ok(id) ==> parsed_id(text@) == Some(id),
{
    uuid::Uuid::parse_str(text).map(|u| u.as_u128())
}

/// The hyphenated text of an account identifier.
pub fn account_id_text(id: u128) -> (r: String)
    ensures
        r@ == id_text(id),
        parsed_id(r@) == Some(id),
{
    format_id(id)
}

/// Relies on jsonwebtoken's `encode` with the default (HS256) header and a key
/// made of the secret's bytes: the signed token for `{"sub": sub, "exp": exp}`.
/// HMAC signing of a serialised JSON map cannot fail. `decode` with the same
/// secret reads both claims back, where `exp` is not negative (it is read as
/// an unsigned number).
#[verifier::external_body]
fn sign_claims(sub: &String, exp: i64, secret: &str) -> (r: Result<String, jsonwebtoken::errors::Error>)
    ensures
        r is Ok,
        r matches Ok(t) ==> t@ == signed_token(sub@, exp, secret@),
        r matches Ok(t) ==> (exp >= 0 ==> token_claims(t@, secret@) == Some((Some(sub@), Some(exp)))),
{
    let mut claims = serde_json::Map::new();
    claims.insert("sub".to_string(), serde_json::Value::from(sub.as_str()));
    claims.insert("exp".to_string(), serde_json::Value::from(exp));
    encode(&Header::default(), &claims, &EncodingKey::from_secret(secret.as_bytes()))
}

/// Relies on jsonwebtoken's `decode` (HS256, a key made of the secret's bytes,
/// `exp` required but not compared with the clock): the `sub` and `exp` claims
/// of a token whose signature verifies.
#[verifier::external_body]
fn read_claims(token: &str, secret: &str) -> (r: Result<Claims, jsonwebtoken::errors::Error>)
    ensures
        r is Ok <==> token_claims(token@, secret@) is Some,
        r matches Ok(c) ==> token_claims(token@, secret@) == Some(claims_view(c)),
{
    let mut validation = Validation::default();
    validation.validate_exp = false;
    let key = DecodingKey::from_secret(secret.as_bytes());
    let data = decode::<serde_json::Map<String, serde_json::Value>>(token, &key, &validation)?;
    let sub = match data.claims.get("sub") {
        Some(serde_json::Value::String(s)) => Some(s.clone()),
        _ => None,
    };
    let exp = match data.claims.get("exp") {
        Some(serde_json::Value::Number(n)) => n.as_i64(),
        _ => None,
    };
    Ok(Claims { sub, exp })
}

/// The outcome of validating decoded claims at time `now`.
pub open spec fn claims_outcome(c: Option<(Option<Seq<char>>, Option<i64>)>, now: i64) -> Result<
    u128,
    AppError,
> {
    match c {
        Some((Some(sub), Some(exp))) => if now > exp {
            Err(AppError::ExpiredToken)
        } else {
            match parsed_id(sub) {
                Some(id) => Ok(id),
                None => Err(AppError::InvalidToken),
            }
        },
        _ => Err(AppError::InvalidToken),
    }
}

/// The expiry of a token issued at `now`, if it can be represented.
pub open spec fn expiry_of(now: i64) -> Option<i64> {
    if now <= i64::MAX - TOKEN_LIFETIME_SECS {
        Some((now + TOKEN_LIFETIME_SECS) as i64)
    } else {
        None
    }
}

/// Expiry of a token issued at `now`: one lifetime later, or `None` where that
/// time does not fit in an `i64`.
pub fn token_expiry(now: i64) -> (r: Option<i64>)
    ensures
        r == expiry_of(now),
{
    if now <= i64::MAX - TOKEN_LIFETIME_SECS {
        Some(now + TOKEN_LIFETIME_SECS)
    } else {
        None
    }
}

/// Decides on claims that a verified signature vouched for (`None` where the
/// signature or the format failed): an expired token is refused as expired,
/// and otherwise the subject must parse as an account identifier.
pub fn check_claims(claims: Option<Claims>, now: i64) -> (r: Result<u128, AppError>)
    ensures
        r == claims_outcome(
            match claims {
                Some(c) => Some(claims_view(c)),
                None => None,
            },
            now,
        ),
{
    match claims {
        Some(Claims { sub: Some(sub), exp: Some(exp) }) => {
            if now > exp {
                Err(AppError::ExpiredToken)
            } else {
                match parse_id(sub.as_str()) {
                    Ok(id) => Ok(id),
                    Err(_) => Err(AppError::InvalidToken),
                }
            }
        },
        _ => Err(AppError::InvalidToken),
    }
}

/// The account a token names, checked against `secret` at time `now`.
pub fn validate_token(token: &str, secret: &str, now: i64) -> (r: Result<u128, AppError>)
    ensures
        r == claims_outcome(token_claims(token@, secret@), now),
{
    let claims = match read_claims(token, secret) {
        Ok(c) => Some(c),
        Err(_) => None,
    };
    check_claims(claims, now)
}

/// Claims `c` yield `id` at every time up to `exp` and are refused as
/// expired after it.
pub open spec fn validates_until(c: Option<(Option<Seq<char>>, Option<i64>)>, id: u128, exp: i64) -> bool {
    forall|at: i64|
        #[trigger] claims_outcome(c, at) == if at > exp {
            Err::<u128, AppError>(AppError::ExpiredToken)
        } else {
            Ok::<u128, AppError>(id)
        }
}

/// Issues a token for `user_id` at time `now`, signed with `secret`, that
/// expires one lifetime later. Validated with the same secret, the token
/// yields `user_id` until it expires, and is refused as expired after.
pub fn issue_token(user_id: u128, secret: &str, now: i64) -> (r: Result<String, AppError>)
    ensures
        expiry_of(now) is None ==> r matches Err(AppError::InternalServerError(_)),
        expiry_of(now) matches Some(exp) ==> r matches Ok(t) && t@ == signed_token(
            id_text(user_id),
            exp,
            secret@,
        ),
        r matches Ok(t) ==> (now >= -TOKEN_LIFETIME_SECS ==> validates_until(
            token_claims(t@, secret@),
            user_id,
            expiry_of(now)->Some_0,
        )),
{
    match token_expiry(now) {
        None => Err(AppError::InternalServerError(String::from_str("token expiry out of range"))),
        Some(exp) => {
            let sub = format_id(user_id);
            match sign_claims(&sub, exp, secret) {
                Ok(t) => Ok(t),
                Err(_) => Err(AppError::InternalServerError(String::from_str("failed to sign token"))),
            }
        },
    }
}

/// A token issued at `issued` with `sub` as subject is accepted, and yields
/// the identifier its subject spells, at every time up to one lifetime later;
/// after that it is refused as expired. A token whose signature does not
/// verify is refused as invalid.
pub proof fn lemma_token_lifetime(sub: Seq<char>, issued: i64, at: i64)
    requires
        expiry_of(issued) is Some,
    ensures
        at <= issued + TOKEN_LIFETIME_SECS ==> claims_outcome(
            Some((Some(sub), expiry_of(issued))),
            at,
        ) == match parsed_id(sub) {
            Some(id) => Ok(id),
            None => Err::<u128, AppError>(AppError::InvalidToken),
        },
        at > issued + TOKEN_LIFETIME_SECS ==> claims_outcome(Some((Some(sub), expiry_of(issued))), at)
            == Err::<u128, AppError>(AppError::ExpiredToken),
        claims_outcome(None, at) == Err::<u128, AppError>(AppError::InvalidToken),
{
}

} // verus!
