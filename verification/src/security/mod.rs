//! Security services: input validation, CAPTCHA, sessions, passwords and browser headers.
pub mod input;
pub mod captcha;
pub mod password;
pub mod session;
pub mod browser;
