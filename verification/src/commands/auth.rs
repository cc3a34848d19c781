//! What the sign-in commands decide: the credentials check, the checks on a
//! token handed in by the user interface, and the session state shown.

use vstd::prelude::*;
use crate::lastfm::auth::{AuthError, auth_error_message};
use crate::text::{concat, is_blank, trim, trimmed};

verus! {

/// The authorisation page to open.
#[derive(Debug, PartialEq, Eq)]
pub struct AuthUrlResponse {
    pub url: String,
}

/// Whether a user is signed in, and who.
#[derive(Debug, PartialEq, Eq)]
pub struct SessionResponse {
    pub username: String,
    pub has_session: bool,
}

/// The message when `LASTFM_API_KEY` is not set.
pub open spec fn missing_key_message() -> Seq<char> {
    "LASTFM_API_KEY is not configured. Add it to your environment or .env file."@
}

/// The message when `LASTFM_API_SECRET` is not set.
pub open spec fn missing_secret_message() -> Seq<char> {
    "LASTFM_API_SECRET is not configured. Add it to your environment or .env file."@
}

/// The message when the key or the secret is blank.
pub open spec fn blank_credentials_message() -> Seq<char> {
    "LASTFM_API_KEY and LASTFM_API_SECRET must not be empty."@
}

/// The API key and secret from the values of `LASTFM_API_KEY` and
/// `LASTFM_API_SECRET`: each must be set and neither may be blank.
pub fn api_credentials(api_key: Option<String>, api_secret: Option<String>) -> (res: Result<
    (String, String),
    String,
>)
    ensures
        api_key is None ==> (res matches Err(m) && m@ == missing_key_message()),
        api_key is Some && api_secret is None ==> (res matches Err(m) && m@
            == missing_secret_message()),
        api_key is Some && api_secret is Some ==> {
            let k = api_key->0@;
            let s = api_secret->0@;
            if trimmed(k).len() == 0 || trimmed(s).len() == 0 {
                res matches Err(m) && m@ == blank_credentials_message()
            } else {
                res matches Ok(c) && c.0@ == k && c.1@ == s
            }
        },
{
    let key = match api_key {
        Some(k) => k,
        None => {
            return Err(
                String::from_str(
                    "LASTFM_API_KEY is not configured. Add it to your environment or .env file.",
                ),
            )
        },
    };
    let secret = match api_secret {
        Some(s) => s,
        None => {
            return Err(
                String::from_str(
                    "LASTFM_API_SECRET is not configured. Add it to your environment or .env file.",
                ),
            )
        },
    };
    if is_blank(key.as_str()) || is_blank(secret.as_str()) {
        return Err(String::from_str("LASTFM_API_KEY and LASTFM_API_SECRET must not be empty."));
    }
    Ok((key, secret))
}

/// The token handed in by the user interface, trimmed; a blank one is refused.
pub fn auth_token_argument(token: &str) -> (res: Result<String, String>)
    ensures
        trimmed(token@).len() == 0 ==> (res matches Err(m) && m@
            == "Last.fm auth token is empty."@),
        trimmed(token@).len() > 0 ==> (res matches Ok(t) && t@ == trimmed(token@)),
{
    let t = trim(token);
    if t.as_str().is_empty() {
        return Err(String::from_str("Last.fm auth token is empty."));
    }
    Ok(t)
}

/// Signed in as `username`.
pub fn signed_in(username: String) -> (res: SessionResponse)
    ensures
        res.username == username,
        res.has_session,
{
    SessionResponse { username, has_session: true }
}

/// Not signed in.
pub fn signed_out() -> (res: SessionResponse)
    ensures
        res.username@ == Seq::<char>::empty(),
        !res.has_session,
{
    SessionResponse { username: String::new(), has_session: false }
}

/// The session state from the keychain: a stored session signs the user in,
/// no session signs the user out, and any other failure is reported.
pub fn session_from_keychain(stored: Result<(String, String), AuthError>) -> (res: Result<
    SessionResponse,
    String,
>)
    ensures
        match stored {
            Ok(s) => res matches Ok(r) && r.username == s.0 && r.has_session,
            Err(AuthError::NoSession) => res matches Ok(r) && r.username@ == Seq::<char>::empty()
                && !r.has_session,
            Err(e) => res matches Err(m) && m@ == "Failed to get session: "@ + auth_error_message(
                e,
            ),
        },
{
    match stored {
        Ok((username, _)) => Ok(signed_in(username)),
        Err(AuthError::NoSession) => Ok(signed_out()),
        Err(e) => {
            let m = e.message();
            Err(concat("Failed to get session: ", m.as_str()))
        },
    }
}

} // verus!
