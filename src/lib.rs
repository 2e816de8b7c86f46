//! Core of a personal-site backend: credential checks, signed identity
//! tokens, the bearer-token guard in front of protected routes, and the
//! soft-delete and pagination conventions shared by every resource.

pub mod calendar;
pub mod controller;
pub mod credential;
pub mod ids;
pub mod middleware;
pub mod models;
pub mod paging;
pub mod repository;
pub mod response;
pub mod text;
pub mod token;
