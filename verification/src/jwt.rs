//! Token issuance and verification, delegated to the `jsonwebtoken`
//! collaborator: a signed, time-bounded bearer token keyed to a username
//! and a shared secret.

use vstd::prelude::*;
use crate::http::{HttpError, HttpErrorCode};

verus! {

/// The signed token that `jsonwebtoken` produces for a subject, an
/// expiry timestamp, and a secret.  HMAC signing is deterministic, so
/// the token is a function of these three values alone.
pub uninterp spec fn jwt_token_of(sub: Seq<char>, exp: u64, secret: Seq<char>) -> Seq<char>;

/// The expiry used for fresh tokens: one day from `now`, saturating at
/// the end of representable time.
pub open spec fn day_after(now: u64) -> u64 {
    if now + 86400 > u64::MAX {
        u64::MAX
    } else {
        (now + 86400) as u64
    }
}

/// Relies on `jsonwebtoken::get_current_timestamp`: seconds since the
/// epoch.  Time is outside this library, so nothing is promised.
#[verifier::external_body]
fn now_unix() -> u64 {
    jsonwebtoken::get_current_timestamp()
}

/// Relies on `jsonwebtoken::encode` with an HS512 header and an
/// `EncodingKey` from the secret's bytes: the token is a deterministic
/// function of the claims (subject and expiry) and the secret.
#[verifier::external_body]
fn jwt_sign(sub: &str, exp: u64, secret: &str) -> (r: String)
    ensures
        r@ == jwt_token_of(sub@, exp, secret@),
{
    let mut claims = serde_json::Map::new();
    claims.insert("sub".to_string(), serde_json::Value::String(sub.to_string()));
    claims.insert("exp".to_string(), serde_json::Value::Number(serde_json::Number::from(exp)));
    jsonwebtoken::encode(
        &jsonwebtoken::Header::new(jsonwebtoken::Algorithm::HS512),
        &serde_json::Value::Object(claims),
        &jsonwebtoken::EncodingKey::from_secret(secret.as_bytes()),
    ).unwrap_or_default()
}

/// Relies on `jsonwebtoken::decode` with HS512 validation: `Some` holds
/// the token's subject only when the signature checks out against the
/// secret and the token has not expired.  The expiry check depends on
/// the clock, so nothing is promised of the outcome.
#[verifier::external_body]
fn jwt_verify(token: &str, secret: &str) -> Option<String> {
    match jsonwebtoken::decode::<serde_json::Value>(
        token,
        &jsonwebtoken::DecodingKey::from_secret(secret.as_bytes()),
        &jsonwebtoken::Validation::new(jsonwebtoken::Algorithm::HS512),
    ) {
        Ok(data) => match data.claims.get("sub") {
            Some(serde_json::Value::String(sub)) => Some(sub.clone()),
            _ => None,
        },
        Err(_) => None,
    }
}

/// Issues a signed token for `username`, valid for one day from now.
pub fn create_jwt(username: &str, secret: &String) -> (r: String)
    ensures
        exists|now: u64| r@ == jwt_token_of(username@, day_after(now), secret@),
{
    let now = now_unix();
    let exp: u64 = if now > 0xffff_ffff_ffff_ffffu64 - 86400 {
        0xffff_ffff_ffff_ffffu64
    } else {
        now + 86400
    };
    proof {
        assert(exp == day_after(now));
    }
    jwt_sign(username, exp, secret.as_str())
}

/// Verifies a presented token against the secret and extracts the
/// authenticated username; fails closed with `Unauthorized` on any
/// structural, signature, or expiry problem.
pub fn validate_jwt(token: &str, secret: &String) -> (r: Result<String, HttpError>)
    ensures
        r matches Err(e) ==> e.code == HttpErrorCode::Error401Unauthorized,
{
    match jwt_verify(token, secret.as_str()) {
        Some(sub) => Ok(sub),
        None => Err(
            HttpError {
                code: HttpErrorCode::Error401Unauthorized,
                message: crate::text::str_to_string("Error decoding jwt token"),
            },
        ),
    }
}

} // verus!
