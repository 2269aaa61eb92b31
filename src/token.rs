use crate::claims::{claims_json, Claims};
use crate::payload::{payload_claims, read_payload};
use crate::errors::ServiceError;
use crate::models::User;
use crate::role::Role;
use vstd::prelude::*;

verus! {

/// How long a token stays valid after it is issued: ten weeks, in seconds.
pub const TOKEN_LIFETIME_SECS: i64 = 6048000;

/// The token that jsonwebtoken's HS512 encoder makes of a payload text under
/// a key.
pub uninterp spec fn signed_token(key: Seq<u8>, payload: Seq<char>) -> Seq<char>;

/// The payload text that jsonwebtoken's HS512 decoder recovers from a token
/// under a key, or `None` where the token is refused.
pub uninterp spec fn decoded_payload(key: Seq<u8>, token: Seq<char>) -> Option<Seq<char>>;

/// Relies on `jsonwebtoken::encode` with `Header::new(Algorithm::HS512)` and
/// `EncodingKey::from_secret`: the payload text goes in verbatim, as a
/// `serde_json` raw value. Encoding and signing depend on the key and the
/// payload alone. `RawValue::from_string` accepts any JSON text, and HMAC
/// signing with an HMAC key does not fail, so a JSON payload is always encoded.
#[verifier::external_body]
fn encode_payload(payload: &str, secret: &[u8]) -> (r: Option<String>)
    ensures
        r matches Some(t) ==> t@ == signed_token(secret@, payload@),
        (exists|c: Claims| #[trigger] claims_json(c) == payload@) ==> r is Some,
{
    let raw = serde_json::value::RawValue::from_string(payload.to_string()).ok()?;
    let header = jsonwebtoken::Header::new(jsonwebtoken::Algorithm::HS512);
    jsonwebtoken::encode(&header, &raw, &jsonwebtoken::EncodingKey::from_secret(secret)).ok()
}

/// Relies on `jsonwebtoken::decode` with `Validation::new(Algorithm::HS512)`,
/// its own expiry check switched off, and `DecodingKey::from_secret`: it
/// checks the structure, the algorithm and the signature, and hands back the
/// payload text as a `serde_json` raw value. A token that `encode_payload`
/// made of the JSON text of some claims under the same key decodes to that
/// text.
#[verifier::external_body]
fn decode_payload(token: &str, secret: &[u8]) -> (r: Option<String>)
    ensures
        text_of(r) == decoded_payload(secret@, token@),
        forall|c: Claims|
            #[trigger] signed_token(secret@, claims_json(c)) == token@ ==> text_of(r) == Some(
                claims_json(c),
            ),
{
    let mut validation = jsonwebtoken::Validation::new(jsonwebtoken::Algorithm::HS512);
    validation.validate_exp = false;
    let key = jsonwebtoken::DecodingKey::from_secret(secret);
    let data = jsonwebtoken::decode::<Box<serde_json::value::RawValue>>(token, &key, &validation);
    data.ok().map(|d| d.claims.get().to_string())
}

/// Relies on `chrono::Utc::now`: the current time in whole seconds since the
/// Unix epoch. Nothing is known of the value.
#[verifier::external_body]
fn now_seconds() -> (r: i64) {
    chrono::Utc::now().timestamp()
}

/// The expiry of a token issued at `now`, where it is a valid `usize` time.
pub open spec fn expiry_after(now: i64) -> Option<usize> {
    let e = now + TOKEN_LIFETIME_SECS;
    if 0 <= e <= usize::MAX {
        Some(e as usize)
    } else {
        None
    }
}

/// Verified claims are accepted while `now` is before their expiry.
pub open spec fn check_expiry(c: Claims, now: i64) -> Result<Claims, ServiceError> {
    if now >= c.exp {
        Err(ServiceError::TokenExpiredError)
    } else {
        Ok(c)
    }
}

/// The outcome of verification, given what the decoder recovered.
pub open spec fn verification(payload: Option<Seq<char>>, now: i64) -> Result<Claims, ServiceError> {
    match payload {
        None => Err(ServiceError::JWTokenError),
        Some(p) => match payload_claims(p) {
            None => Err(ServiceError::JWTokenError),
            Some(c) => check_expiry(c, now),
        },
    }
}

pub open spec fn text_of(s: Option<String>) -> Option<Seq<char>> {
    match s {
        Some(p) => Some(p@),
        None => None,
    }
}

/// Issues a token for `uid` with `role` at time `now`, valid for
/// `TOKEN_LIFETIME_SECS`.
pub fn issue_token(uid: i32, role: Role, now: i64, secret: &[u8]) -> (r: Result<String, ServiceError>)
    ensures
        expiry_after(now) is None ==> r == Err::<String, ServiceError>(ServiceError::JWTCreationError),
        expiry_after(now) matches Some(e) ==> (r matches Ok(t) && t@ == signed_token(
            secret@,
            claims_json(Claims { exp: e, uid, role }),
        )),
{
    let e: i128 = now as i128 + TOKEN_LIFETIME_SECS as i128;
    if e < 0 || e > usize::MAX as i128 {
        return Err(ServiceError::JWTCreationError);
    }
    let claims = Claims { exp: e as usize, uid, role };
    let payload = claims.to_json();
    proof {
        assert(claims_json(claims) == payload@);
    }
    match encode_payload(payload.as_str(), secret) {
        Some(t) => Ok(t),
        None => Err(ServiceError::JWTCreationError),
    }
}

/// Checks decoded payload text at time `now`: no text, or a text that is not
/// a JSON object holding claims, is an invalid token; claims past their
/// expiry are an expired token. Any JSON layout of the claims is read.
pub fn verify_payload(payload: Option<String>, now: i64) -> (r: Result<Claims, ServiceError>)
    ensures
        r == verification(text_of(payload), now),
        forall|c: Claims|
            #[trigger] claims_json(c) == text_of(payload)->Some_0 && payload is Some ==> r
                == check_expiry(c, now),
{
    match payload {
        None => Err(ServiceError::JWTokenError),
        Some(p) => match read_payload(p.as_str()) {
            None => Err(ServiceError::JWTokenError),
            Some(c) => {
                if now as i128 >= c.exp as i128 {
                    Err(ServiceError::TokenExpiredError)
                } else {
                    Ok(c)
                }
            },
        },
    }
}

/// Verifies a token at time `now`. A token issued under the same secret for
/// claims `c` yields `c` before `c.exp` and `TokenExpiredError` from then on.
pub fn verify_token(token: &str, secret: &[u8], now: i64) -> (r: Result<Claims, ServiceError>)
    ensures
        r == verification(decoded_payload(secret@, token@), now),
        forall|c: Claims|
            #[trigger] signed_token(secret@, claims_json(c)) == token@ ==> r == check_expiry(c, now),
{
    let payload = decode_payload(token, secret);
    verify_payload(payload, now)
}

/// Verifies a token against the current time.
pub fn validate_token(token: &str, secret: &[u8]) -> (r: Result<Claims, ServiceError>)
    ensures
        exists|now: i64| r == verification(decoded_payload(secret@, token@), now),
        decoded_payload(secret@, token@) is None ==> r == Err::<Claims, ServiceError>(
            ServiceError::JWTokenError,
        ),
{
    let now = now_seconds();
    verify_token(token, secret, now)
}

/// The authentication gate: a missing credential is refused as
/// unauthenticated; a present one must verify at `now`.
pub fn authenticate(token: Option<&str>, secret: &[u8], now: i64) -> (r: Result<Claims, ServiceError>)
    ensures
        token is None ==> r == Err::<Claims, ServiceError>(ServiceError::Unauthenticated),
        token matches Some(t) ==> r == verification(decoded_payload(secret@, t@), now),
        forall|c: Claims|
            token matches Some(t) && #[trigger] signed_token(secret@, claims_json(c)) == t@ ==> r
                == check_expiry(c, now),
{
    match token {
        None => Err(ServiceError::Unauthenticated),
        Some(t) => verify_token(t, secret, now),
    }
}

/// Issues a token for `user` with `role`, valid from the current time.
pub fn create_jwt_role(user: &User, role: Role, secret: &[u8]) -> (r: Result<String, ServiceError>)
    ensures
        r matches Ok(t) ==> exists|e: usize|
            t@ == signed_token(secret@, #[trigger] claims_json(Claims { exp: e, uid: user.id, role })),
        r matches Err(err) ==> err is JWTCreationError,
{
    let now = now_seconds();
    issue_token(user.id, role, now, secret)
}

/// Issues a `ReadAll` token for `user`, valid from the current time.
pub fn create_jwt(user: &User, secret: &[u8]) -> (r: Result<String, ServiceError>)
    ensures
        r matches Ok(t) ==> exists|e: usize|
            t@ == signed_token(
                secret@,
                #[trigger] claims_json(Claims { exp: e, uid: user.id, role: Role::ReadAll }),
            ),
        r matches Err(err) ==> err is JWTCreationError,
{
    create_jwt_role(user, Role::ReadAll, secret)
}

} // verus!
