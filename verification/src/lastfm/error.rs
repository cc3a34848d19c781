//! The failures of the authentication flow, as the user interface names them.

use vstd::prelude::*;
use crate::text::concat;

verus! {

/// A failure of the authentication flow.
#[derive(Clone, Debug, PartialEq, Eq)]
pub enum AuthError {
    Api(String),
    CallbackServer(String),
    Timeout,
    InvalidCallback,
    SecureStorage(String),
    InvalidCredentials,
    Http(String),
    Serialization(String),
}

/// The message each failure displays.
pub open spec fn flow_error_message(e: AuthError) -> Seq<char> {
    match e {
        AuthError::Api(s) => "Last.fm API error: "@ + s@,
        AuthError::CallbackServer(s) => "Callback server failed to start: "@ + s@,
        AuthError::Timeout => "Authentication timed out"@,
        AuthError::InvalidCallback => "Callback validation failed"@,
        AuthError::SecureStorage(s) => "Secure storage error: "@ + s@,
        AuthError::InvalidCredentials => "Invalid API credentials"@,
        AuthError::Http(s) => "HTTP error: "@ + s@,
        AuthError::Serialization(s) => "Serialization error: "@ + s@,
    }
}

impl AuthError {
    /// The failure's message.
    pub fn message(&self) -> (res: String)
        ensures
            res@ == flow_error_message(*self),
    {
        match self {
            AuthError::Api(s) => concat("Last.fm API error: ", s.as_str()),
            AuthError::CallbackServer(s) => concat("Callback server failed to start: ", s.as_str()),
            AuthError::Timeout => String::from_str("Authentication timed out"),
            AuthError::InvalidCallback => String::from_str("Callback validation failed"),
            AuthError::SecureStorage(s) => concat("Secure storage error: ", s.as_str()),
            AuthError::InvalidCredentials => String::from_str("Invalid API credentials"),
            AuthError::Http(s) => concat("HTTP error: ", s.as_str()),
            AuthError::Serialization(s) => concat("Serialization error: ", s.as_str()),
        }
    }
}

} // verus!
