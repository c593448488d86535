//! The decisions behind the HTTP API.
pub mod handlers;

use vstd::prelude::*;

verus! {

/// A refused request: the HTTP status to answer with and its message.
pub struct ApiError {
    pub status: u16,
    pub message: String,
}

/// The refusal with `status` and `message`.
pub fn api_error(status: u16, message: &str) -> (e: ApiError)
    ensures
        e.status == status,
        e.message@ == message@,
{
    ApiError { status, message: message.to_string() }
}

} // verus!
