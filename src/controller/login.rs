//! Logging in: e-mail and password against a stored user, answered with a
//! signed token for that user.

use vstd::prelude::*;
use crate::credential::{password_accepted, verify_password};
use crate::ids::{uuid_string, uuid_text};
use crate::models::UserDB;
use crate::token::{issue_token, jwt_claims, jwt_signed, token_verdict, AuthConfig, AuthError, TOKEN_LIFETIME_SECS};

verus! {

pub struct LoginRequest {
    pub email: String,
    pub password: String,
}

/// A successful login: the token and the id of the user it names.
pub struct LoginGrant {
    pub token: String,
    pub user_id: String,
}

#[derive(Debug, Clone, Copy, PartialEq, Eq, Structural)]
pub enum LoginError {
    /// No active user has that e-mail.
    InvalidEmail,
    /// The password does not match the stored hash.
    InvalidPassword,
}

/// `user` is an active user with e-mail `email`.
pub open spec fn user_matches(user: Option<&UserDB>, email: Seq<char>) -> bool {
    user matches Some(u) && u.email@ == email && u.deleted_at is None
}

/// Answers a login request. `found` is the stored user with the requested
/// e-mail, if any. On success the token names that user and validates at
/// `now`.
pub fn login(config: &AuthConfig, request: &LoginRequest, found: Option<&UserDB>, now: u64) -> (r: Result<
    LoginGrant,
    LoginError,
>)
    requires
        now + TOKEN_LIFETIME_SECS <= u64::MAX,
    ensures
        !user_matches(found, request.email@) ==> r == Err::<LoginGrant, LoginError>(LoginError::InvalidEmail),
        user_matches(found, request.email@) && !password_accepted(request.password@, found->Some_0.password@)
            ==> r == Err::<LoginGrant, LoginError>(LoginError::InvalidPassword),
        user_matches(found, request.email@) && password_accepted(request.password@, found->Some_0.password@)
            ==> match r {
            Ok(g) => {
                &&& g.user_id@ == uuid_string(found->Some_0.id)
                &&& g.token@ == jwt_signed(
                    uuid_string(found->Some_0.id),
                    (now + TOKEN_LIFETIME_SECS) as u64,
                    config.secret(),
                )
                &&& jwt_claims(g.token@, config.secret()) == Some(
                    (uuid_string(found->Some_0.id), (now + TOKEN_LIFETIME_SECS) as u64),
                )
                &&& token_verdict(config.secret(), g.token@, now) == Ok::<Seq<char>, AuthError>(
                    uuid_string(found->Some_0.id),
                )
            },
            Err(_) => false,
        },
{
    let user = match found {
        Some(u) => u,
        None => return Err(LoginError::InvalidEmail),
    };
    if user.email != request.email || user.deleted_at.is_some() {
        return Err(LoginError::InvalidEmail);
    }
    if !verify_password(request.password.as_str(), user.password.as_str()) {
        return Err(LoginError::InvalidPassword);
    }
    let user_id = uuid_text(user.id);
    let token = issue_token(config, user_id.as_str(), now);
    Ok(LoginGrant { token, user_id })
}

} // verus!
