//! Request interception in front of protected routes.

pub mod auth;
