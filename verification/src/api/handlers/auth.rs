use vstd::prelude::*;
use crate::api::{ApiError, api_error};
use crate::security::input::{InputValidator, valid_username, strong_password};
use crate::security::captcha::{
    CaptchaService, spec_token_accepts, base64url_decode, aes256gcm_decrypt, json_read_fields,
};
use crate::security::password::{check_password, spec_check_password};

verus! {

/// A request to open a wallet.
pub struct SignupRequest {
    pub username: String,
    pub password: String,
    pub captcha_token: String,
    pub captcha_answer: String,
}

/// A request to log in from a device.
pub struct LoginRequest {
    pub username: String,
    pub password: String,
    pub captcha_token: String,
    pub captcha_answer: String,
    /// The device fingerprint the session will be bound to.
    pub device_fp: String,
}

/// The answer to a successful login: the session token, the user and the
/// user's role, so that the front end can route an admin.
pub struct LoginResponse {
    pub token: String,
    pub user_id: u128,
    pub role: String,
}

/// The answer to a signup request before the account is created: the
/// username, then the password, then the CAPTCHA must pass.
pub open spec fn spec_signup_check(req: SignupRequest, captcha_key: Seq<u8>, now: u64) -> Option<(u16, Seq<char>)> {
    if !valid_username(req.username@) {
        Some((400u16, "Invalid username: must be 3-20 alphanumeric characters or underscores"@))
    } else if !strong_password(req.password@) {
        Some((400u16, "Weak password: must be 8-128 chars with uppercase, lowercase, number, and special character"@))
    } else if !spec_token_accepts(captcha_key, req.captcha_token@, req.captcha_answer@, now) {
        Some((400u16, "Invalid CAPTCHA"@))
    } else {
        None
    }
}

/// Defence in depth for signup at time `now` (Unix seconds): validates the
/// username and the password, then verifies the CAPTCHA.
pub fn check_signup(req: &SignupRequest, captcha: &CaptchaService, now: u64) -> (res: Result<(), ApiError>)
    ensures
        match res {
            Ok(()) => spec_signup_check(*req, captcha.key(), now) is None,
            Err(e) => spec_signup_check(*req, captcha.key(), now) == Some((e.status, e.message@)),
        },
        res is Ok <==> (valid_username(req.username@) && strong_password(req.password@) && spec_token_accepts(
            captcha.key(),
            req.captcha_token@,
            req.captcha_answer@,
            now,
        )),
{
    if !InputValidator::validate_username(req.username.as_str()) {
        return Err(api_error(400, "Invalid username: must be 3-20 alphanumeric characters or underscores"));
    }
    if !InputValidator::validate_password(req.password.as_str()) {
        return Err(
            api_error(400, "Weak password: must be 8-128 chars with uppercase, lowercase, number, and special character"),
        );
    }
    if !captcha.verify_token(req.captcha_token.as_str(), req.captcha_answer.as_str(), now) {
        return Err(api_error(400, "Invalid CAPTCHA"));
    }
    Ok(())
}

/// The answer to a login request before the account is read: the username
/// format, then the CAPTCHA.
pub open spec fn spec_login_check(req: LoginRequest, captcha_key: Seq<u8>, now: u64) -> Option<(u16, Seq<char>)> {
    if !valid_username(req.username@) {
        Some((400u16, "Invalid username format"@))
    } else if !spec_token_accepts(captcha_key, req.captcha_token@, req.captcha_answer@, now) {
        Some((403u16, "CAPTCHA verification failed"@))
    } else {
        None
    }
}

/// Checks a login request at time `now` (Unix seconds): the username format,
/// then the CAPTCHA, which guards against brute force.
pub fn check_login_request(req: &LoginRequest, captcha: &CaptchaService, now: u64) -> (res: Result<(), ApiError>)
    ensures
        match res {
            Ok(()) => spec_login_check(*req, captcha.key(), now) is None,
            Err(e) => spec_login_check(*req, captcha.key(), now) == Some((e.status, e.message@)),
        },
        res is Ok <==> (valid_username(req.username@) && spec_token_accepts(
            captcha.key(),
            req.captcha_token@,
            req.captcha_answer@,
            now,
        )),
{
    if !InputValidator::validate_username(req.username.as_str()) {
        return Err(api_error(400, "Invalid username format"));
    }
    if !captcha.verify_token(req.captcha_token.as_str(), req.captcha_answer.as_str(), now) {
        return Err(api_error(403, "CAPTCHA verification failed"));
    }
    Ok(())
}

/// Law: a signup passes its checks exactly when the username and the
/// password meet the rules and the CAPTCHA service accepts the token for the
/// answer at the very time of the request; in particular an expired CAPTCHA
/// never passes.
pub proof fn lemma_signup_admission(req: SignupRequest, captcha_key: Seq<u8>, now: u64)
    ensures
        (spec_signup_check(req, captcha_key, now) is None) == (valid_username(req.username@) && strong_password(
            req.password@,
        ) && spec_token_accepts(captcha_key, req.captcha_token@, req.captcha_answer@, now)),
        spec_signup_check(req, captcha_key, now) is None ==> (match base64url_decode(req.captcha_token@) {
            Some(data) => match aes256gcm_decrypt(captcha_key, data.take(12), data.skip(12)) {
                Some(plain) => match json_read_fields(plain, "answer"@, "exp"@) {
                    Some((expected, exp)) => now <= exp,
                    None => false,
                },
                None => false,
            },
            None => false,
        }),
{
}

/// Law: a login request passes its checks exactly when the username is well
/// formed and the CAPTCHA service accepts the token for the answer at the
/// very time of the request.
pub proof fn lemma_login_admission(req: LoginRequest, captcha_key: Seq<u8>, now: u64)
    ensures
        (spec_login_check(req, captcha_key, now) is None) == (valid_username(req.username@) && spec_token_accepts(
            captcha_key,
            req.captcha_token@,
            req.captcha_answer@,
            now,
        )),
{
}

/// A frozen account cannot log in, whether its status says so or its freeze
/// flag is set.
pub fn check_account_status(status: &String, is_frozen: bool) -> (res: Result<(), ApiError>)
    ensures
        match res {
            Ok(()) => status@ != "FROZEN"@ && !is_frozen,
            Err(e) => (status@ == "FROZEN"@ || is_frozen) && e.status == 403 && e.message@
                == "ACCOUNT FROZEN BY CENTRAL BANK"@,
        },
{
    if *status == "FROZEN".to_string() || is_frozen {
        return Err(api_error(403, "ACCOUNT FROZEN BY CENTRAL BANK"));
    }
    Ok(())
}

/// An account as login reads it from the ledger.
pub struct AccountRecord {
    pub user_id: u128,
    pub password_hash: String,
    pub status: String,
    pub role: String,
    pub is_frozen: bool,
}

/// The answer to a login for the account found under the username (`None`
/// when there is none) and the password given: an unknown user is
/// unauthorized, a frozen account is forbidden, then the password is checked.
pub open spec fn spec_authenticate(account: Option<AccountRecord>, password: Seq<char>) -> Option<(u16, Seq<char>)> {
    match account {
        None => Some((401u16, "Invalid credentials"@)),
        Some(a) => if a.status@ == "FROZEN"@ || a.is_frozen {
            Some((403u16, "ACCOUNT FROZEN BY CENTRAL BANK"@))
        } else {
            spec_check_password(password, a.password_hash@)
        },
    }
}

/// Authenticates a login against the account found under its username: the
/// user to open a session for and the role it carries, or why not.
pub fn authenticate(account: Option<AccountRecord>, password: &str) -> (res: Result<(u128, String), ApiError>)
    ensures
        match res {
            Ok((user_id, role)) => {
                &&& spec_authenticate(account, password@) is None
                &&& account matches Some(a) && user_id == a.user_id && role == a.role
            },
            Err(e) => spec_authenticate(account, password@) == Some((e.status, e.message@)),
        },
{
    match account {
        None => Err(api_error(401, "Invalid credentials")),
        Some(a) => {
            check_account_status(&a.status, a.is_frozen)?;
            check_password(password, a.password_hash.as_str())?;
            Ok((a.user_id, a.role))
        },
    }
}

} // verus!
