//! Verified core of a desktop Last.fm client: request signing, parameter
//! building, text normalisation and the shaping of API data into the
//! responses shown to the user.

pub mod text;
pub mod lastfm;
pub mod timestamps;
pub mod database;
pub mod commands;
pub mod storage;
