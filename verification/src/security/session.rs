use vstd::prelude::*;
use vstd::string::StringSliceAdditionalSpecFns;
use jsonwebtoken::{encode, EncodingKey, Header};
use serde_json::Value;
use uuid::Uuid;

verus! {

/// The error type of `jsonwebtoken`.
#[verifier::external_type_specification]
#[verifier::external_body]
pub struct ExJwtError(jsonwebtoken::errors::Error);

/// How long a session lasts, in seconds (one hour).
pub const SESSION_DURATION: usize = 3600;

/// The claims of a session token.
pub struct Claims {
    /// The user the session belongs to.
    pub sub: u128,
    /// The user's role, "admin" or "user".
    pub role: String,
    /// When the session expires (Unix seconds).
    pub exp: usize,
    /// When the session was issued (Unix seconds).
    pub iat: usize,
    /// The device fingerprint the token is bound to.
    pub device: String,
}

/// The claims of a session for `user_id` with `role`, bound to the device
/// `device_fp` and issued at `now` (Unix seconds): it expires
/// `SESSION_DURATION` seconds later.
pub fn session_claims(user_id: u128, role: &str, device_fp: &str, now: usize) -> (c: Claims)
    requires
        now + SESSION_DURATION <= usize::MAX,
    ensures
        c.sub == user_id,
        c.role@ == role@,
        c.iat == now,
        c.exp == now + SESSION_DURATION,
        c.device@ == device_fp@,
{
    Claims {
        sub: user_id,
        role: role.to_string(),
        exp: now + SESSION_DURATION,
        iat: now,
        device: device_fp.to_string(),
    }
}

/// What `jsonwebtoken::encode` produces with the default header (HS256) and
/// the HMAC key `secret` for the claims object `{"sub", "role", "exp", "iat",
/// "device"}`, in that order, with `sub` as the hyphenated text of the UUID.
pub uninterp spec fn hs256_session_token(
    sub: u128,
    role: Seq<char>,
    exp: usize,
    iat: usize,
    device: Seq<char>,
    secret: Seq<u8>,
) -> Seq<char>;

/// What `jsonwebtoken::decode` with `Validation::new(HS256)` and the HMAC key
/// `secret` reads from `token` as (sub, role, exp, device), setting aside its
/// check of `exp` against the clock: `None` when it refuses the token on any
/// other ground, or when the claims are not an object with a UUID's text in
/// `sub`, a string `role`, an unsigned number `exp` and a string `device`.
pub uninterp spec fn hs256_session_claims(token: Seq<char>, secret: Seq<u8>) -> Option<
    (u128, Seq<char>, usize, Seq<char>),
>;

/// `jsonwebtoken::encode(&Header::default(), claims, &EncodingKey::from_secret(secret))`
/// on the claims as a JSON object; its error is passed on. It does not fail
/// here: the key from `from_secret` is an HMAC key, as HS256 of the default
/// header asks, a JSON object always serializes, and HMAC signing cannot fail.
/// The token it makes is signed with HS256 under `secret`, so decoding it with
/// that key gives the claims back.
#[verifier::external_body]
fn jwt_encode(claims: &Claims, secret: &str) -> (res: Result<String, jsonwebtoken::errors::Error>)
    ensures
        res is Ok,
        res matches Ok(token) ==> token@ == hs256_session_token(
            claims.sub,
            claims.role@,
            claims.exp,
            claims.iat,
            claims.device@,
            secret.spec_bytes(),
        ),
        res matches Ok(token) ==> hs256_session_claims(token@, secret.spec_bytes()) == Some(
            (claims.sub, claims.role@, claims.exp, claims.device@),
        ),
{
    let mut object = serde_json::Map::new();
    object.insert("sub".to_string(), Value::from(Uuid::from_u128(claims.sub).to_string()));
    object.insert("role".to_string(), Value::from(claims.role.clone()));
    object.insert("exp".to_string(), Value::from(claims.exp));
    object.insert("iat".to_string(), Value::from(claims.iat));
    object.insert("device".to_string(), Value::from(claims.device.clone()));
    encode(&Header::default(), &Value::Object(object), &EncodingKey::from_secret(secret.as_bytes()))
}

/// Why a session token could not be made.
pub enum SessionError {
    /// The token encoder refused the claims.
    Encoding,
}

/// Generates the signed session token (HS256) of `user_id` with `role`,
/// bound to the device `device_fp` and issued at `now` (Unix seconds): its
/// claims are `session_claims(user_id, role, device_fp, now)`.
pub fn create_token(user_id: u128, role: &str, device_fp: &str, secret: &str, now: usize) -> (res: Result<
    String,
    SessionError,
>)
    requires
        now + SESSION_DURATION <= usize::MAX,
    ensures
        res is Ok,
        res matches Ok(token) ==> token@ == hs256_session_token(
            user_id,
            role@,
            (now + SESSION_DURATION) as usize,
            now,
            device_fp@,
            secret.spec_bytes(),
        ),
        res matches Ok(token) ==> hs256_session_claims(token@, secret.spec_bytes()) == Some(
            (user_id, role@, (now + SESSION_DURATION) as usize, device_fp@),
        ),
{
    let claims = session_claims(user_id, role, device_fp, now);
    match jwt_encode(&claims, secret) {
        Ok(token) => Ok(token),
        Err(_) => Err(SessionError::Encoding),
    }
}

} // verus!
