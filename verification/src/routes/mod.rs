//! The decisions behind the HTTP routes.

pub mod admin;
