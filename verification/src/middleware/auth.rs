use vstd::prelude::*;
use vstd::string::*;
use crate::security::session::hs256_session_claims;
use jsonwebtoken::{decode, Algorithm, DecodingKey, Validation};
use serde_json::Value;
use uuid::Uuid;

verus! {

/// The role of an authenticated user, kept apart from other string values.
#[derive(Clone, Debug)]
pub struct UserRole(pub String);

/// The claims of a session token as the authentication gate reads them.
pub struct Claims {
    pub sub: u128,
    pub role: String,
    pub exp: usize,
    pub device: String,
}

/// Why a request was not authenticated.
pub enum AuthError {
    /// No bearer token, or one that does not decode under the session key.
    Unauthorized,
    /// A valid token of `user`, replayed from another device.
    DeviceMismatch { user: u128 },
}

/// The scheme prefix of a bearer `Authorization` header.
pub open spec fn bearer_prefix() -> Seq<char> {
    "Bearer "@
}

/// The token of a bearer `Authorization` header: what follows "Bearer ", or
/// nothing when the header does not start with it.
pub fn bearer_token(header: &str) -> (token: Option<String>)
    ensures
        match token {
            Some(t) => header@.len() >= 7 && header@.subrange(0, 7) == bearer_prefix()
                && t@ == header@.subrange(7, header@.len() as int),
            None => !(header@.len() >= 7 && header@.subrange(0, 7) == bearer_prefix()),
        },
{
    let len = header.unicode_len();
    if len < 7 {
        return None;
    }
    let prefix = header.substring_char(0, 7).to_string();
    if prefix != "Bearer ".to_string() {
        return None;
    }
    Some(header.substring_char(7, len).to_string())
}

/// Device binding: a token is accepted only from a request whose
/// `X-Device-Fingerprint` is the device the token was issued to; a request
/// without the header (an empty fingerprint) proves no device.
pub fn device_matches(token_device: &String, request_fingerprint: &String) -> (ok: bool)
    ensures
        ok == (token_device@ == request_fingerprint@),
{
    *token_device == *request_fingerprint
}

/// Authorizes a request that carries valid, decoded `claims` and the device
/// fingerprint `request_fingerprint`: the user and role to act as, or
/// `DeviceMismatch` when the token is bound to another device.
pub fn authorize(claims: Claims, request_fingerprint: &String) -> (res: Result<(u128, UserRole), AuthError>)
    ensures
        match res {
            Ok((user, role)) => {
                &&& claims.device@ == request_fingerprint@
                &&& user == claims.sub
                &&& role.0 == claims.role
            },
            Err(e) => {
                &&& claims.device@ != request_fingerprint@
                &&& e == AuthError::DeviceMismatch { user: claims.sub }
            },
        },
{
    if !device_matches(&claims.device, request_fingerprint) {
        return Err(AuthError::DeviceMismatch { user: claims.sub });
    }
    Ok((claims.sub, UserRole(claims.role)))
}

/// `jsonwebtoken::decode` of `token` with `Validation::new(HS256)` and the
/// HMAC key `secret`, its claims read as (sub, role, exp, device), `sub` as a
/// UUID's text. `None` when it refuses the token or the claims lack that shape.
/// Whether it refuses an expired token depends on the clock: it refuses when
/// `exp < now - 60` (`validation.rs`, `validate`). So a token refused on other
/// grounds is refused, a token it accepts yields its claims, and a token whose
/// `exp` is `u64::MAX` is never refused for its expiry, whatever the clock.
#[verifier::external_body]
fn jwt_decode(token: &str, secret: &str) -> (res: Option<(u128, String, usize, String)>)
    ensures
        res matches Some((sub, role, exp, device)) ==> hs256_session_claims(token@, secret.spec_bytes()) == Some(
            (sub, role@, exp, device@),
        ),
        hs256_session_claims(token@, secret.spec_bytes()) is None ==> res is None,
        (hs256_session_claims(token@, secret.spec_bytes()) matches Some((sub, role, exp, device)) && exp as int
            == u64::MAX as int) ==> res is Some,
{
    let validation = Validation::new(Algorithm::HS256);
    let claims = decode::<Value>(token, &DecodingKey::from_secret(secret.as_bytes()), &validation).ok()?.claims;
    let sub = Uuid::parse_str(claims.get("sub")?.as_str()?).ok()?.as_u128();
    let role = claims.get("role")?.as_str()?.to_string();
    let exp = usize::try_from(claims.get("exp")?.as_u64()?).ok()?;
    let device = claims.get("device")?.as_str()?.to_string();
    Some((sub, role, exp, device))
}

/// The token of a bearer `Authorization` header, when it is one.
pub open spec fn spec_bearer_token(header: Seq<char>) -> Option<Seq<char>> {
    if header.len() >= 7 && header.subrange(0, 7) == bearer_prefix() {
        Some(header.subrange(7, header.len() as int))
    } else {
        None
    }
}

/// The claims of the bearer token in the `Authorization` header `header`
/// (`None` when absent), decoded under the session key `secret`.
pub open spec fn spec_header_claims(header: Option<Seq<char>>, secret: Seq<u8>) -> Option<
    (u128, Seq<char>, usize, Seq<char>),
> {
    match header {
        None => None,
        Some(h) => match spec_bearer_token(h) {
            None => None,
            Some(token) => hs256_session_claims(token, secret),
        },
    }
}

/// Whom a request with the `Authorization` header `header` and the device
/// fingerprint `fingerprint` may act as, under the session key `secret`,
/// unless its token has expired: the user and role of the token's claims, when
/// it is a bearer token that decodes and the request comes from the token's
/// device. `None` when the request is refused whatever the
/// clock says.
pub open spec fn spec_session_subject(header: Option<Seq<char>>, fingerprint: Seq<char>, secret: Seq<u8>) -> Option<
    (u128, Seq<char>),
> {
    match spec_header_claims(header, secret) {
        None => None,
        Some((sub, role, exp, device)) => if device == fingerprint {
            Some((sub, role))
        } else {
            None
        },
    }
}

/// The session gate: authenticates a request from its `Authorization` header
/// (`None` when absent) and its `X-Device-Fingerprint` (empty when absent)
/// against the session key `secret`. A request is admitted only as the user
/// and role of a valid bearer token issued to its device; a token replayed
/// from another device, or without naming its device, is refused as a device
/// mismatch.
pub fn authenticate_request(header: Option<&str>, fingerprint: &String, secret: &str) -> (res: Result<
    (u128, UserRole),
    AuthError,
>)
    ensures
        ({
            let h = match header {
                Some(h) => Some(h@),
                None => None,
            };
            &&& res matches Ok((user, role)) ==> spec_session_subject(h, fingerprint@, secret.spec_bytes()) == Some(
                (user, role.0@),
            )
            &&& spec_session_subject(h, fingerprint@, secret.spec_bytes()) is None ==> res is Err
            &&& res matches Err(AuthError::DeviceMismatch { user }) ==> spec_header_claims(
                h,
                secret.spec_bytes(),
            ) matches Some((sub, role, exp, device)) && sub == user && device != fingerprint@
            &&& spec_header_claims(h, secret.spec_bytes()) matches Some((sub, role, exp, device)) ==> (exp as int
                == u64::MAX as int && device == fingerprint@ ==> (res matches Ok((user, r)) && user == sub && r.0@
                == role))
        }),
{
    let h = match header {
        Some(h) => h,
        None => return Err(AuthError::Unauthorized),
    };
    let token = match bearer_token(h) {
        Some(t) => t,
        None => return Err(AuthError::Unauthorized),
    };
    let (sub, role, exp, device) = match jwt_decode(token.as_str(), secret) {
        Some(claims) => claims,
        None => return Err(AuthError::Unauthorized),
    };
    authorize(Claims { sub, role, exp, device }, fingerprint)
}

/// Law: a session token is bound to its device. A request carrying a token
/// whose claims are `(sub, role, exp, device)` can only ever act as `sub` with
/// `role`, and is refused unless it names the token's device.
pub proof fn lemma_token_bound_to_device(
    token: Seq<char>,
    secret: Seq<u8>,
    fingerprint: Seq<char>,
    sub: u128,
    role: Seq<char>,
    exp: usize,
    device: Seq<char>,
)
    requires
        hs256_session_claims(token, secret) == Some((sub, role, exp, device)),
    ensures
        spec_session_subject(Some(bearer_prefix() + token), fingerprint, secret) == if device == fingerprint {
            Some((sub, role))
        } else {
            None
        },
{
    let h = bearer_prefix() + token;
    reveal_strlit("Bearer ");
    assert(h.subrange(0, 7) =~= bearer_prefix());
    assert(h.subrange(7, h.len() as int) =~= token);
}

} // verus!
