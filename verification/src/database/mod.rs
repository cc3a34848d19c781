//! The local cache's records and the values stored for them.

pub mod models;
