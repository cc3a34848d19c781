//! Desktop authentication with Last.fm: the authorisation URL, reading the
//! token out of the browser's callback request, the replies sent to the
//! browser, and the decisions of the wait for the user's approval.

use vstd::prelude::*;
use vstd::utf8::encode_utf8;
use crate::lastfm::client::{LastFmClient, LastFmClientError, client_error_message, signed};
use crate::lastfm::models::Session;
use crate::lastfm::params::{Params, compare_keys, KeyOrder};
use crate::text::{
    chars_of, concat, string_from_range, string_from_chars, u64_to_string, decimal,
    find_from, is_white, is_white_char, strip_trailing, strip_trailing_exec,
};

verus! {

// ---------------------------------------------------------------------------
// Names and fixed texts
// ---------------------------------------------------------------------------
/// The keychain service under which the session is stored.
pub fn service_name() -> (res: &'static str)
    ensures
        res@ == "Scrobblist"@,
{
    "Scrobblist"
}

/// The keychain entry holding the user name.
pub fn username_key() -> (res: &'static str)
    ensures
        res@ == "username"@,
{
    "username"
}

/// The keychain entry holding the session key.
pub fn session_key_key() -> (res: &'static str)
    ensures
        res@ == "session_key"@,
{
    "session_key"
}

/// The callback URL used when `LASTFM_CALLBACK_URL` is not set.
pub open spec fn default_callback() -> Seq<char> {
    "http://localhost:8080/callback"@
}

/// The page shown once the browser brought back the token.
pub open spec fn success_html() -> Seq<char> {
    "<html><body><h1>Scrobblist</h1><p>Authentication complete. You can return to Scrobblist.</p></body></html>"@
}

/// The page shown for a callback request without a token.
pub open spec fn waiting_html() -> Seq<char> {
    "<html><body><h1>Scrobblist authorization</h1><p>Return to Scrobblist after approving access in Last.fm.</p></body></html>"@
}

/// An HTTP `200 OK` reply carrying `html`, whose length is counted in bytes.
pub open spec fn http_ok_response(html: Seq<char>) -> Seq<char> {
    "HTTP/1.1 200 OK\r\nContent-Type: text/html; charset=utf-8\r\nContent-Length: "@ + decimal(
        (encode_utf8(html).len() as usize) as nat,
    ) + "\r\nConnection: close\r\n\r\n"@ + html
}

/// The HTTP reply that carries `html`.
pub fn http_ok_response_exec(html: &str) -> (res: String)
    ensures
        res@ == http_ok_response(html@),
{
    let mut res = String::from_str(
        "HTTP/1.1 200 OK\r\nContent-Type: text/html; charset=utf-8\r\nContent-Length: ",
    );
    let len = u64_to_string(html.len() as u64);
    res.append(len.as_str());
    res.append("\r\nConnection: close\r\n\r\n");
    res.append(html);
    res
}

/// The reply for a callback that brought the token.
pub fn success_response() -> (res: String)
    ensures
        res@ == http_ok_response(success_html()),
{
    http_ok_response_exec(
        "<html><body><h1>Scrobblist</h1><p>Authentication complete. You can return to Scrobblist.</p></body></html>",
    )
}

/// The reply for a callback without a token.
pub fn waiting_response() -> (res: String)
    ensures
        res@ == http_ok_response(waiting_html()),
{
    http_ok_response_exec(
        "<html><body><h1>Scrobblist authorization</h1><p>Return to Scrobblist after approving access in Last.fm.</p></body></html>",
    )
}

// ---------------------------------------------------------------------------
// Errors
// ---------------------------------------------------------------------------
/// Why authentication failed.
#[derive(Clone, Debug, PartialEq, Eq)]
pub enum AuthError {
    /// The keychain failed; the text is the keychain's error.
    KeychainError(String),
    ClientError(LastFmClientError),
    AuthFailed,
    NoSession,
    CallbackServer(String),
    Timeout,
    InvalidCallback,
}

/// The message each error displays.
pub open spec fn auth_error_message(e: AuthError) -> Seq<char> {
    match e {
        AuthError::KeychainError(s) => "Keychain error: "@ + s@,
        AuthError::ClientError(c) => "Last.fm client error: "@ + client_error_message(c),
        AuthError::AuthFailed => "Authentication failed"@,
        AuthError::NoSession => "No session found"@,
        AuthError::CallbackServer(s) => "Callback server failed: "@ + s@,
        AuthError::Timeout => "Authentication timed out"@,
        AuthError::InvalidCallback => "Invalid callback token"@,
    }
}

impl AuthError {
    /// The error's message.
    pub fn message(&self) -> (res: String)
        ensures
            res@ == auth_error_message(*self),
    {
        match self {
            AuthError::KeychainError(s) => concat("Keychain error: ", s.as_str()),
            AuthError::ClientError(c) => {
                let m = c.message();
                concat("Last.fm client error: ", m.as_str())
            },
            AuthError::AuthFailed => String::from_str("Authentication failed"),
            AuthError::NoSession => String::from_str("No session found"),
            AuthError::CallbackServer(s) => concat("Callback server failed: ", s.as_str()),
            AuthError::Timeout => String::from_str("Authentication timed out"),
            AuthError::InvalidCallback => String::from_str("Invalid callback token"),
        }
    }
}

// ---------------------------------------------------------------------------
// URL encoding and parsing (the `url` crate)
// ---------------------------------------------------------------------------
/// Bytes that `application/x-www-form-urlencoded` leaves as they are.
pub open spec fn urlencoded_unchanged(b: u8) -> bool {
    b == 0x2a || b == 0x2d || b == 0x2e || (0x30 <= b && b <= 0x39) || (0x41 <= b && b <= 0x5a) || b
        == 0x5f || (0x61 <= b && b <= 0x7a)
}

/// The uppercase hexadecimal digit for a value below sixteen.
pub open spec fn hex_upper_digit(d: nat) -> char {
    if d < 10 {
        ((d + '0' as nat) as u32) as char
    } else {
        ((d - 10 + 'A' as nat) as u32) as char
    }
}

/// How one byte is written: unchanged, `+` for a space, else `%XX`.
pub open spec fn urlencode_byte(b: u8) -> Seq<char> {
    if urlencoded_unchanged(b) {
        seq![(b as u32) as char]
    } else if b == 0x20 {
        seq!['+']
    } else {
        seq!['%', hex_upper_digit((b / 16) as nat), hex_upper_digit((b % 16) as nat)]
    }
}

/// `application/x-www-form-urlencoded` serialisation of a byte string.
pub open spec fn form_urlencoded(bytes: Seq<u8>) -> Seq<char>
    decreases bytes.len(),
{
    if bytes.len() == 0 {
        Seq::empty()
    } else {
        form_urlencoded(bytes.drop_last()) + urlencode_byte(bytes.last())
    }
}

/// `url::form_urlencoded::byte_serialize` over the UTF-8 bytes of `s`,
/// collected into a string. The contract states the crate's documented
/// serialisation: the bytes `*-._`, ASCII digits and letters unchanged, a
/// space as `+`, every other byte as `%` and two uppercase hex digits.
#[verifier::external_body]
pub(crate) fn form_urlencode(s: &str) -> (res: String)
    ensures
        res@ == form_urlencoded(encode_utf8(s@)),
{
    url::form_urlencoded::byte_serialize(s.as_bytes()).collect()
}

/// What `url::Url::parse` gives of a URL: `None` when the text is not a URL,
/// else its query pairs, decoded and in order, and its port or the scheme's
/// known default port.
pub uninterp spec fn url_parts(target: Seq<char>) -> Option<
    (Seq<(Seq<char>, Seq<char>)>, Option<u16>),
>;

/// The parts of a parsed URL that the callback handling reads.
pub struct UrlParts {
    pub query_pairs: Vec<(String, String)>,
    pub port: Option<u16>,
}

/// The query pairs as text.
pub open spec fn pairs_view(v: Seq<(String, String)>) -> Seq<(Seq<char>, Seq<char>)> {
    v.map_values(|p: (String, String)| (p.0@, p.1@))
}

/// `url::Url::parse`, read through `query_pairs` and `port_or_known_default`.
/// The contract claims only that the result is `url_parts` of the text; what
/// the URL grammar accepts is not stated.
#[verifier::external_body]
pub(crate) fn parse_url(target: &str) -> (res: Option<UrlParts>)
    ensures
        match url_parts(target@) {
            None => res is None,
            Some(parts) => res matches Some(u) && pairs_view(u.query_pairs@) == parts.0 && u.port
                == parts.1,
        },
{
    match url::Url::parse(target) {
        Ok(u) => Some(
            UrlParts {
                query_pairs: u.query_pairs().map(|(k, v)| (k.into_owned(), v.into_owned())).collect(),
                port: u.port_or_known_default(),
            },
        ),
        Err(_) => None,
    }
}

/// The text of a URL with its port set to `port` (what `url::Url::set_port`
/// followed by `to_string` gives).
pub uninterp spec fn url_with_port(url: Seq<char>, port: u16) -> Seq<char>;

/// `url::Url::parse`, then `set_port(Some(port))` with its error ignored,
/// then `to_string`. The contract claims that a text that is a URL (as
/// `url_parts` has it) gives `url_with_port` of the text and the port, and
/// that a text that is not gives `None`; how the URL is rewritten and
/// written out is not stated.
#[verifier::external_body]
pub(crate) fn set_url_port(url: &str, port: u16) -> (res: Option<String>)
    ensures
        match url_parts(url@) {
            None => res is None,
            Some(_) => res matches Some(s) && s@ == url_with_port(url@, port),
        },
{
    let mut parsed = url::Url::parse(url).ok()?;
    let _ = parsed.set_port(Some(port));
    Some(parsed.to_string())
}

// ---------------------------------------------------------------------------
// Reading the callback request
// ---------------------------------------------------------------------------
/// The first line of `s` (`s.lines().next()`): `None` for empty text, else
/// the text up to the first line feed, less a carriage return before it.
pub open spec fn first_line(s: Seq<char>) -> Option<Seq<char>> {
    if s.len() == 0 {
        None
    } else {
        match find_from(s, seq!['\n'], 0) {
            None => Some(s),
            Some(i) => {
                let l = s.subrange(0, i);
                if l.len() > 0 && l.last() == '\r' {
                    Some(l.drop_last())
                } else {
                    Some(l)
                }
            },
        }
    }
}

/// The first index at or after `i` that is not whitespace, or the length.
pub open spec fn next_non_white(s: Seq<char>, i: int) -> int
    decreases s.len() - i,
{
    if i < 0 || i >= s.len() || !is_white(s[i]) {
        i
    } else {
        next_non_white(s, i + 1)
    }
}

/// The first index at or after `i` that is whitespace, or the length.
pub open spec fn next_white(s: Seq<char>, i: int) -> int
    decreases s.len() - i,
{
    if i < 0 || i >= s.len() || is_white(s[i]) {
        i
    } else {
        next_white(s, i + 1)
    }
}

/// The `n`-th whitespace-separated word of `s` from index `i` on
/// (`split_whitespace().nth(n)`).
pub open spec fn nth_word(s: Seq<char>, i: int, n: nat) -> Option<Seq<char>>
    decreases n,
{
    let a = next_non_white(s, i);
    if a < 0 || a >= s.len() {
        None
    } else {
        let b = next_white(s, a);
        if n == 0 {
            Some(s.subrange(a, b))
        } else {
            nth_word(s, b, (n - 1) as nat)
        }
    }
}

/// `s` without its trailing `/` characters (`trim_end_matches('/')`).
pub open spec fn strip_trailing_slashes(s: Seq<char>) -> Seq<char> {
    strip_trailing(s, '/')
}

/// Whether `s` starts with `prefix`.
pub open spec fn starts_with(s: Seq<char>, prefix: Seq<char>) -> bool {
    prefix.len() <= s.len() && s.subrange(0, prefix.len() as int) == prefix
}

/// The URL that a request path stands for: an absolute `http...` path as it
/// is, else the path joined to the callback base without doubling the `/`.
pub open spec fn callback_target(path: Seq<char>, base: Seq<char>) -> Seq<char> {
    if starts_with(path, "http"@) {
        path
    } else if starts_with(path, "/"@) {
        strip_trailing_slashes(base) + path
    } else {
        strip_trailing_slashes(base) + "/"@ + path
    }
}

/// The value of the first query pair named `key`.
pub open spec fn first_value(pairs: Seq<(Seq<char>, Seq<char>)>, key: Seq<char>) -> Option<
    Seq<char>,
>
    decreases pairs.len(),
{
    if pairs.len() == 0 {
        None
    } else if pairs[0].0 == key {
        Some(pairs[0].1)
    } else {
        first_value(pairs.drop_first(), key)
    }
}

/// The callback base: `LASTFM_CALLBACK_URL` when set, else the default.
pub open spec fn callback_base(env: Option<Seq<char>>) -> Seq<char> {
    match env {
        Some(s) => s,
        None => default_callback(),
    }
}

/// The token that an HTTP request to the callback carries: the request
/// target of its first line, resolved against the callback base, and the
/// first `token` query pair of that URL.
pub open spec fn callback_token(request: Seq<char>, base: Seq<char>) -> Option<Seq<char>> {
    match first_line(request) {
        None => None,
        Some(line) => match nth_word(line, 0, 1) {
            None => None,
            Some(path) => match url_parts(callback_target(path, base)) {
                None => None,
                Some(parts) => first_value(parts.0, "token"@),
            },
        },
    }
}

fn next_non_white_exec(s: &Vec<char>, i: usize) -> (res: usize)
    requires
        i <= s.len(),
    ensures
        res == next_non_white(s@, i as int),
        i <= res <= s.len(),
    decreases s.len() - i,
{
    if i >= s.len() || !is_white_char(s[i]) {
        i
    } else {
        next_non_white_exec(s, i + 1)
    }
}

fn next_white_exec(s: &Vec<char>, i: usize) -> (res: usize)
    requires
        i <= s.len(),
    ensures
        res == next_white(s@, i as int),
        i <= res <= s.len(),
    decreases s.len() - i,
{
    if i >= s.len() || is_white_char(s[i]) {
        i
    } else {
        next_white_exec(s, i + 1)
    }
}

fn nth_word_exec(s: &Vec<char>, i: usize, n: usize) -> (res: Option<String>)
    requires
        i <= s.len(),
    ensures
        match nth_word(s@, i as int, n as nat) {
            None => res is None,
            Some(w) => res matches Some(r) && r@ == w,
        },
    decreases n,
{
    let a = next_non_white_exec(s, i);
    if a >= s.len() {
        None
    } else {
        let b = next_white_exec(s, a);
        if n == 0 {
            Some(string_from_range(s, a, b))
        } else {
            nth_word_exec(s, b, n - 1)
        }
    }
}

fn find_char_exec(s: &Vec<char>, c: char) -> (res: Option<usize>)
    ensures
        match find_from(s@, seq![c], 0) {
            None => res is None,
            Some(i) => res == Some(i as usize),
        },
        res matches Some(i) ==> i < s.len(),
{
    let mut i: usize = 0;
    while i < s.len()
        invariant
            i <= s.len(),
            find_from(s@, seq![c], 0) == find_from(s@, seq![c], i as int),
        decreases s.len() - i,
    {
        if s[i] == c {
            assert(s@.subrange(i as int, i + 1) =~= seq![c]);
            return Some(i);
        }
        assert(s@.subrange(i as int, i + 1)[0] != c);
        i = i + 1;
    }
    None
}

fn first_line_exec(s: &Vec<char>) -> (res: Option<Vec<char>>)
    ensures
        match first_line(s@) {
            None => res is None,
            Some(l) => res matches Some(r) && r@ == l,
        },
{
    if s.len() == 0 {
        return None;
    }
    let found = find_char_exec(s, '\n');
    proof {
        crate::text::lemma_find_from_bounds(s@, seq!['\n'], 0);
    }
    let end = match found {
        None => s.len(),
        Some(i) => i,
    };
    let mut line: Vec<char> = Vec::new();
    let mut k: usize = 0;
    while k < end
        invariant
            k <= end,
            end <= s.len(),
            line@ == s@.subrange(0, k as int),
        decreases end - k,
    {
        line.push(s[k]);
        k = k + 1;
        assert(line@ =~= s@.subrange(0, k as int));
    }
    match found {
        None => {
            assert(s@.subrange(0, end as int) =~= s@);
            Some(line)
        },
        Some(_) => {
            if line.len() > 0 && line[line.len() - 1] == '\r' {
                line.pop();
                assert(line@ =~= s@.subrange(0, end as int).drop_last());
            }
            Some(line)
        },
    }
}

fn starts_with_exec(s: &Vec<char>, prefix: &str) -> (res: bool)
    ensures
        res == starts_with(s@, prefix@),
{
    let p = chars_of(prefix);
    if p.len() > s.len() {
        return false;
    }
    let mut k: usize = 0;
    while k < p.len()
        invariant
            p@ == prefix@,
            p.len() <= s.len(),
            k <= p.len(),
            forall|j: int| 0 <= j < k ==> s@[j] == p@[j],
        decreases p.len() - k,
    {
        if s[k] != p[k] {
            assert(s@.subrange(0, p@.len() as int)[k as int] != p@[k as int]);
            return false;
        }
        k = k + 1;
    }
    assert(s@.subrange(0, p@.len() as int) =~= p@);
    true
}

fn callback_target_exec(path: &Vec<char>, base: &str) -> (res: String)
    ensures
        res@ == callback_target(path@, base@),
{
    if starts_with_exec(path, "http") {
        string_from_chars(path)
    } else {
        let mut target = strip_trailing_exec(base, '/');
        if !starts_with_exec(path, "/") {
            target.append("/");
        }
        let p = string_from_chars(path);
        target.append(p.as_str());
        target
    }
}

fn first_value_exec(pairs: &Vec<(String, String)>, key: &str) -> (res: Option<String>)
    ensures
        match first_value(pairs_view(pairs@), key@) {
            None => res is None,
            Some(v) => res matches Some(r) && r@ == v,
        },
{
    let ghost all = pairs_view(pairs@);
    let mut i: usize = 0;
    assert(all.subrange(0, all.len() as int) =~= all);
    while i < pairs.len()
        invariant
            i <= pairs.len(),
            all == pairs_view(pairs@),
            first_value(all, key@) == first_value(all.subrange(i as int, all.len() as int), key@),
        decreases pairs.len() - i,
    {
        let ghost rest = all.subrange(i as int, all.len() as int);
        assert(rest[0] == (pairs@[i as int].0@, pairs@[i as int].1@));
        if same_text(pairs[i].0.as_str(), key) {
            return Some(pairs[i].1.clone());
        }
        assert(rest.drop_first() =~= all.subrange(i + 1, all.len() as int));
        i = i + 1;
    }
    None
}

/// Whether two texts are equal.
pub fn same_text(a: &str, b: &str) -> (res: bool)
    ensures
        res == (a@ == b@),
{
    match compare_keys(a, b) {
        KeyOrder::Equal => true,
        _ => false,
    }
}

// ---------------------------------------------------------------------------
// The decisions while waiting for the user's approval
// ---------------------------------------------------------------------------
/// Something that happened while waiting for the user to approve access.
pub enum FlowEvent {
    /// Polling `auth.getSession` succeeded.
    PollSucceeded(Session),
    /// Polling `auth.getSession` failed (access not granted yet).
    PollFailed,
    /// The browser sent this request to the callback listener.
    Request(String),
}

/// What to do next while waiting for approval.
pub enum FlowAction {
    /// Keep waiting.
    Wait,
    /// Send this reply to the browser and keep waiting.
    Reply(String),
    /// Send this reply to the browser, then ask for the session of this token.
    ReplyAndCreateSession(String, String),
    /// Give up with this error.
    Fail(AuthError),
    /// Authentication is done with this session.
    Finish(Session),
}

/// A Last.fm authentication service.
pub struct AuthService {
    client: LastFmClient,
}

/// The authorisation page for a request token, returning to `callback`.
pub open spec fn auth_url(api_key: Seq<char>, token: Seq<char>, callback: Seq<char>) -> Seq<char> {
    "https://www.last.fm/api/auth/?api_key="@ + api_key + "&token="@ + form_urlencoded(
        encode_utf8(token),
    ) + "&cb="@ + form_urlencoded(encode_utf8(callback))
}

impl AuthService {
    /// The client that the service signs its requests with.
    pub closed spec fn client_view(&self) -> LastFmClient {
        self.client
    }

    /// A service for the application's key and secret.
    pub fn new(api_key: String, api_secret: String) -> (res: AuthService)
        ensures
            res.client_view().key() == api_key@,
            res.client_view().secret() == api_secret@,
    {
        AuthService { client: LastFmClient::new(api_key, api_secret) }
    }

    /// The client.
    pub fn client(&self) -> (res: &LastFmClient)
        ensures
            *res == self.client_view(),
    {
        &self.client
    }

    /// The callback URL: the value of `LASTFM_CALLBACK_URL` when it is set,
    /// else the default.
    pub fn callback_url(env: Option<&str>) -> (res: String)
        ensures
            res@ == callback_base(
                match env {
                    Some(s) => Some(s@),
                    None => None,
                },
            ),
    {
        match env {
            Some(s) => s.to_owned(),
            None => String::from_str("http://localhost:8080/callback"),
        }
    }

    /// The authorisation page for `token`, returning to `callback`.
    pub fn get_auth_url_for_token_with_callback(&self, token: &str, callback: &str) -> (res: String)
        ensures
            res@ == auth_url(self.client_view().key(), token@, callback@),
    {
        let encoded_token = form_urlencode(token);
        let encoded_callback = form_urlencode(callback);
        let mut url = String::from_str("https://www.last.fm/api/auth/?api_key=");
        url.append(self.client.get_api_key());
        url.append("&token=");
        url.append(encoded_token.as_str());
        url.append("&cb=");
        url.append(encoded_callback.as_str());
        url
    }

    /// The authorisation page for `token`, returning to the callback URL that
    /// `env` (the value of `LASTFM_CALLBACK_URL`, if set) selects.
    pub fn get_auth_url_for_token(&self, token: &str, env: Option<&str>) -> (res: String)
        ensures
            res@ == auth_url(
                self.client_view().key(),
                token@,
                callback_base(
                    match env {
                        Some(s) => Some(s@),
                        None => None,
                    },
                ),
            ),
    {
        let callback = Self::callback_url(env);
        self.get_auth_url_for_token_with_callback(token, callback.as_str())
    }

    /// The authorisation page without a request token.
    pub fn get_auth_url(&self, env: Option<&str>) -> (res: String)
        ensures
            res@ == auth_url(
                self.client_view().key(),
                Seq::empty(),
                callback_base(
                    match env {
                        Some(s) => Some(s@),
                        None => None,
                    },
                ),
            ),
    {
        let token = "";
        proof {
            reveal_strlit("");
        }
        self.get_auth_url_for_token(token, env)
    }

    /// The token carried by a request to the callback listener, the callback
    /// base being selected by `env` as in `callback_url`.
    pub fn extract_callback_token(request: &str, env: Option<&str>) -> (res: Option<String>)
        ensures
            match callback_token(
                request@,
                callback_base(
                    match env {
                        Some(s) => Some(s@),
                        None => None,
                    },
                ),
            ) {
                None => res is None,
                Some(t) => res matches Some(r) && r@ == t,
            },
    {
        let chars = chars_of(request);
        let line = match first_line_exec(&chars) {
            Some(l) => l,
            None => return None,
        };
        let path = match nth_word_exec(&line, 0, 1) {
            Some(p) => p,
            None => return None,
        };
        let base = Self::callback_url(env);
        let path_chars = chars_of(path.as_str());
        let target = callback_target_exec(&path_chars, base.as_str());
        match parse_url(target.as_str()) {
            None => None,
            Some(parts) => first_value_exec(&parts.query_pairs, "token"),
        }
    }

    /// The port to listen on for the callback: the callback URL's port or its
    /// scheme's default, 8080 when it has neither; a callback that is not a
    /// URL is refused.
    pub fn callback_port(callback: &str) -> (res: Result<u16, AuthError>)
        ensures
            match url_parts(callback@) {
                None => res matches Err(AuthError::CallbackServer(m)) && m@
                    == "Invalid callback URL: "@ + callback@,
                Some(parts) => res == Ok::<u16, AuthError>(
                    match parts.1 {
                        Some(p) => p,
                        None => 8080u16,
                    },
                ),
            },
    {
        match parse_url(callback) {
            None => Err(AuthError::CallbackServer(concat("Invalid callback URL: ", callback))),
            Some(parts) => match parts.port {
                Some(p) => Ok(p),
                None => Ok(8080),
            },
        }
    }

    /// The callback URL with the port the listener was bound to; a requested
    /// callback that is not a URL is refused.
    pub fn bound_callback_url(requested: &str, port: u16) -> (res: Result<String, AuthError>)
        ensures
            match url_parts(requested@) {
                None => res matches Err(AuthError::CallbackServer(m)) && m@
                    == "Invalid callback URL: "@ + requested@,
                Some(_) => res matches Ok(s) && s@ == url_with_port(requested@, port),
            },
    {
        match set_url_port(requested, port) {
            Some(s) => Ok(s),
            None => Err(AuthError::CallbackServer(concat("Invalid callback URL: ", requested))),
        }
    }

    /// The addresses to try for the callback listener, in order: the
    /// preferred port and then any free port, on IPv4 and then IPv6 loopback.
    pub fn callback_bind_targets(port: u16) -> (res: Vec<String>)
        ensures
            res@.len() == 4,
            res@[0]@ == "127.0.0.1:"@ + decimal(port as nat),
            res@[1]@ == "127.0.0.1:0"@,
            res@[2]@ == "[::1]:"@ + decimal(port as nat),
            res@[3]@ == "[::1]:0"@,
    {
        let p = u64_to_string(port as u64);
        let mut targets: Vec<String> = Vec::new();
        targets.push(concat("127.0.0.1:", p.as_str()));
        targets.push(String::from_str("127.0.0.1:0"));
        targets.push(concat("[::1]:", p.as_str()));
        targets.push(String::from_str("[::1]:0"));
        targets
    }

    /// The signed `auth.getToken` request.
    pub fn token_request(&self) -> (res: Params)
        ensures
            res.wf(),
            res@ == signed(
                map![ "method"@ => "auth.getToken"@ ],
                self.client_view().key(),
                self.client_view().secret(),
            ),
    {
        self.client.signed_params(LastFmClient::token_params())
    }

    /// The signed `auth.getSession` request for `token`.
    pub fn session_request(&self, token: &str) -> (res: Params)
        ensures
            res.wf(),
            res@ == signed(
                map![ "method"@ => "auth.getSession"@, "token"@ => token@ ],
                self.client_view().key(),
                self.client_view().secret(),
            ),
    {
        self.client.signed_params(LastFmClient::session_params(token))
    }

    /// The request token out of the `auth.getToken` reply's `token` field,
    /// which must be a string.
    pub fn token_from_response(token: Option<String>) -> (res: Result<String, AuthError>)
        ensures
            match token {
                Some(t) => res == Ok::<String, AuthError>(t),
                None => res == Err::<String, AuthError>(AuthError::AuthFailed),
            },
    {
        match token {
            Some(t) => Ok(t),
            None => Err(AuthError::AuthFailed),
        }
    }

    /// The session out of the `auth.getSession` reply's `session` field, when
    /// it decoded as a session.
    pub fn session_from_response(session: Option<Session>) -> (res: Result<Session, AuthError>)
        ensures
            match session {
                Some(s) => res == Ok::<Session, AuthError>(s),
                None => res == Err::<Session, AuthError>(AuthError::AuthFailed),
            },
    {
        match session {
            Some(s) => Ok(s),
            None => Err(AuthError::AuthFailed),
        }
    }

    /// One step of the wait for approval: a successful poll finishes, a failed
    /// one keeps waiting; a callback request carrying the expected token is
    /// answered and its session asked for, one carrying another token fails
    /// the flow, and one without a token is answered and the wait goes on.
    pub fn auth_flow_step(expected_token: &str, env: Option<&str>, event: FlowEvent) -> (res:
        FlowAction)
        ensures
            match event {
                FlowEvent::PollSucceeded(s) => res == FlowAction::Finish(s),
                FlowEvent::PollFailed => res is Wait,
                FlowEvent::Request(r) => match callback_token(
                    r@,
                    callback_base(
                        match env {
                            Some(s) => Some(s@),
                            None => None,
                        },
                    ),
                ) {
                    None => res matches FlowAction::Reply(h) && h@ == http_ok_response(
                        waiting_html(),
                    ),
                    Some(t) => if t == expected_token@ {
                        res matches FlowAction::ReplyAndCreateSession(h, tok) && h@
                            == http_ok_response(success_html()) && tok@ == t
                    } else {
                        res == FlowAction::Fail(AuthError::InvalidCallback)
                    },
                },
            },
    {
        match event {
            FlowEvent::PollSucceeded(s) => FlowAction::Finish(s),
            FlowEvent::PollFailed => FlowAction::Wait,
            FlowEvent::Request(r) => match Self::extract_callback_token(r.as_str(), env) {
                None => FlowAction::Reply(waiting_response()),
                Some(t) => {
                    if same_text(t.as_str(), expected_token) {
                        FlowAction::ReplyAndCreateSession(success_response(), t)
                    } else {
                        FlowAction::Fail(AuthError::InvalidCallback)
                    }
                },
            },
        }
    }
}

} // verus!
