//! Per-resource request handling: request bodies turned into rows,
//! listing parameters turned into queries, and the login, contact and
//! image-upload rules.

pub mod contact;
pub mod hobby;
pub mod image;
pub mod login;
pub mod post;
pub mod postcat;
pub mod project;
pub mod role;
pub mod setting;
pub mod tech;
pub mod user;
