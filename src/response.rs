//! Plain response bodies and the token claim set.

use vstd::prelude::*;

verus! {

/// A short status message.
pub struct StatusResponse {
    pub message: String,
}

/// The answer to a login attempt: a message, and the token when it
/// succeeded.
pub struct LoginResponse {
    pub message: String,
    pub token: Option<String>,
}

/// The signed claim set of a token: the subject (a user id) and the unix
/// time at which the token expires.
pub struct Claims {
    pub sub: String,
    pub exp: u64,
}

} // verus!
