//! What the application's commands decide and show.

pub mod user;
pub mod auth;
