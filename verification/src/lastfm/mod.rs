//! The Last.fm side: request parameters, signing, the client's request
//! building, authentication and the API's data model.

pub mod params;
pub mod signing;
pub mod models;
pub mod client;
pub mod auth;
pub mod error;
