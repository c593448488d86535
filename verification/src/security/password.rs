use vstd::prelude::*;
use vstd::string::StringSliceAdditionalSpecFns;
use crate::api::{ApiError, api_error};

verus! {

/// Whether `argon2::PasswordHash::new` accepts `hash` as a PHC string.
pub uninterp spec fn phc_hash_parses(hash: Seq<char>) -> bool;

/// Whether `Argon2::default().verify_password` accepts `password` against the
/// parsed PHC string `hash`.
pub uninterp spec fn argon2_verifies(password: Seq<char>, hash: Seq<char>) -> bool;

/// `Argon2::default().hash_password` with a fresh random salt
/// (`SaltString::generate(&mut OsRng)`), as a PHC string. The salt is random,
/// so nothing names the hash itself; a hash it returns parses and verifies the
/// same password, and is an Argon2id PHC string (`Algorithm::default()` is
/// Argon2id). It fails only for a password over `MAX_PWD_LEN` (0xFFFF_FFFF)
/// bytes: the generated 16-byte salt and the default parameters always pass.
#[verifier::external_body]
fn argon2_hash(password: &str) -> (res: Option<String>)
    ensures
        res matches Some(h) ==> phc_hash_parses(h@) && argon2_verifies(password@, h@),
        res matches Some(h) ==> h@.len() >= 10 && h@.subrange(0, 10) == "$argon2id$"@,
        password.spec_bytes().len() <= 0xFFFF_FFFF ==> res is Some,
{
    let salt = argon2::password_hash::SaltString::generate(&mut argon2::password_hash::rand_core::OsRng);
    argon2::PasswordHasher::hash_password(&argon2::Argon2::default(), password.as_bytes(), &salt).ok().map(
        |h| h.to_string(),
    )
}

/// `argon2::PasswordHash::new(hash)` then `Argon2::default().verify_password`:
/// `None` when the hash does not parse, else whether the password verifies.
#[verifier::external_body]
fn argon2_verify(password: &str, hash: &str) -> (res: Option<bool>)
    ensures
        match res {
            None => !phc_hash_parses(hash@),
            Some(ok) => phc_hash_parses(hash@) && ok == argon2_verifies(password@, hash@),
        },
{
    match argon2::PasswordHash::new(hash) {
        Ok(parsed) => Some(
            argon2::PasswordVerifier::verify_password(&argon2::Argon2::default(), password.as_bytes(), &parsed).is_ok(),
        ),
        Err(_) => None,
    }
}

/// Hashes a new password with Argon2id and a random salt; a failure is an
/// internal error, and comes only for a password over 0xFFFF_FFFF bytes. The
/// hash it returns is an Argon2id PHC string that verifies the password.
pub fn hash_password(password: &str) -> (res: Result<String, ApiError>)
    ensures
        password.spec_bytes().len() <= 0xFFFF_FFFF ==> res is Ok,
        match res {
            Ok(h) => {
                &&& phc_hash_parses(h@)
                &&& argon2_verifies(password@, h@)
                &&& h@.len() >= 10 && h@.subrange(0, 10) == "$argon2id$"@
            },
            Err(e) => e.status == 500 && e.message@ == "Hashing failed"@,
        },
{
    match argon2_hash(password) {
        Some(h) => Ok(h),
        None => Err(api_error(500, "Hashing failed")),
    }
}

/// The answer to a login whose password is checked against `stored_hash`.
pub open spec fn spec_check_password(password: Seq<char>, stored_hash: Seq<char>) -> Option<(u16, Seq<char>)> {
    if !phc_hash_parses(stored_hash) {
        Some((500u16, "Hash Error"@))
    } else if !argon2_verifies(password, stored_hash) {
        Some((401u16, "Invalid credentials"@))
    } else {
        None
    }
}

/// Checks a login password against the stored hash: an unparsable hash is an
/// internal error, a wrong password is unauthorized.
pub fn check_password(password: &str, stored_hash: &str) -> (res: Result<(), ApiError>)
    ensures
        match res {
            Ok(()) => spec_check_password(password@, stored_hash@) is None,
            Err(e) => spec_check_password(password@, stored_hash@) == Some((e.status, e.message@)),
        },
{
    match argon2_verify(password, stored_hash) {
        None => Err(api_error(500, "Hash Error")),
        Some(false) => Err(api_error(401, "Invalid credentials")),
        Some(true) => Ok(()),
    }
}

/// Law: a password that was hashed at signup is accepted at login.
pub proof fn lemma_hashed_password_verifies(password: Seq<char>, hash: Seq<char>)
    requires
        phc_hash_parses(hash),
        argon2_verifies(password, hash),
    ensures
        spec_check_password(password, hash) is None,
{
}

} // verus!
