//! Request handling rules for the admin, authentication and wallet endpoints.
pub mod admin;
pub mod wallet;
pub mod auth;
