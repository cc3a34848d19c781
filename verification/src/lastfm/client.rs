//! What the Last.fm client decides: the parameters of each request, the
//! signing of write requests, and how a reply is judged before its body is
//! read. Sending the requests is left to the caller.

use vstd::prelude::*;
use crate::lastfm::models::LastFmError;
use crate::lastfm::params::{Params, sorted_entries};
use crate::lastfm::signing::{sign, api_signature};
use crate::text::{concat, u64_to_string, i64_to_string, decimal, signed_decimal, parse_u64, parse_unsigned};

verus! {

/// The endpoint of the Last.fm web service.
pub fn api_url() -> (res: &'static str)
    ensures
        res@ == "https://ws.audioscrobbler.com/2.0/"@,
{
    "https://ws.audioscrobbler.com/2.0/"
}

/// Why a request to Last.fm failed.
#[derive(Clone, Debug, PartialEq, Eq)]
pub enum LastFmClientError {
    /// The transport failed; the text is the transport's error.
    HttpError(String),
    /// Last.fm answered with an error or an unsuccessful status.
    ApiError(String),
    /// The reply body was not what was expected; the text is the decoder's error.
    SerializationError(String),
    MissingApiKey,
}

/// The message each error displays.
pub open spec fn client_error_message(e: LastFmClientError) -> Seq<char> {
    match e {
        LastFmClientError::HttpError(s) => "HTTP request failed: "@ + s@,
        LastFmClientError::ApiError(s) => "Last.fm API error: "@ + s@,
        LastFmClientError::SerializationError(s) => "Serialization error: "@ + s@,
        LastFmClientError::MissingApiKey => "Missing API key"@,
    }
}

impl LastFmClientError {
    /// The error's message.
    pub fn message(&self) -> (res: String)
        ensures
            res@ == client_error_message(*self),
    {
        match self {
            LastFmClientError::HttpError(s) => concat("HTTP request failed: ", s.as_str()),
            LastFmClientError::ApiError(s) => concat("Last.fm API error: ", s.as_str()),
            LastFmClientError::SerializationError(s) => concat("Serialization error: ", s.as_str()),
            LastFmClientError::MissingApiKey => String::from_str("Missing API key"),
        }
    }
}

/// The map of parameters `base` with `api_key` and `format=json` added.
pub open spec fn keyed(base: Map<Seq<char>, Seq<char>>, api_key: Seq<char>) -> Map<
    Seq<char>,
    Seq<char>,
> {
    base.insert("api_key"@, api_key).insert("format"@, "json"@)
}

/// `keyed` parameters with their signature added as `api_sig`.
pub open spec fn signed(base: Map<Seq<char>, Seq<char>>, api_key: Seq<char>, secret: Seq<char>) -> Map<
    Seq<char>,
    Seq<char>,
> {
    keyed(base, api_key).insert(
        "api_sig"@,
        api_signature(sorted_entries(keyed(base, api_key)), secret),
    )
}

/// `m` with `key` set to the decimal value of `value` when there is one.
pub open spec fn with_optional_number(m: Map<Seq<char>, Seq<char>>, key: Seq<char>, value: Option<
    u32,
>) -> Map<Seq<char>, Seq<char>> {
    match value {
        Some(n) => m.insert(key, decimal(n as nat)),
        None => m,
    }
}

/// What `total` counts, or zero when it is not a number (`parse().unwrap_or(0)`).
pub open spec fn count_or_zero(total: Seq<char>) -> nat {
    match parse_unsigned(total, u64::MAX as nat) {
        Ok(v) => v,
        Err(_) => 0,
    }
}

/// A signed request checks out: with its `api_sig` taken away, what is left
/// signs to that `api_sig`, provided the caller's parameters did not already
/// hold one.
pub proof fn law_signed_request_verifies(
    base: Map<Seq<char>, Seq<char>>,
    api_key: Seq<char>,
    secret: Seq<char>,
)
    requires
        !base.dom().contains("api_sig"@),
    ensures
        signed(base, api_key, secret).dom().contains("api_sig"@),
        signed(base, api_key, secret)["api_sig"@] == api_signature(
            sorted_entries(signed(base, api_key, secret).remove("api_sig"@)),
            secret,
        ),
        signed(base, api_key, secret).remove("api_sig"@) == keyed(base, api_key),
        keyed(base, api_key)["format"@] == "json"@,
        keyed(base, api_key)["api_key"@] == api_key,
{
    reveal_strlit("api_sig");
    reveal_strlit("api_key");
    reveal_strlit("format");
    assert("api_sig"@ != "api_key"@) by {
        assert("api_sig"@[4] != "api_key"@[4]);
    }
    assert("api_sig"@ != "format"@) by {
        assert("api_sig"@[0] != "format"@[0]);
    }
    assert("api_key"@ != "format"@) by {
        assert("api_key"@[0] != "format"@[0]);
    }
    assert(signed(base, api_key, secret).remove("api_sig"@) =~= keyed(base, api_key));
}

fn put(p: &mut Params, key: &str, value: &str)
    requires
        old(p).wf(),
    ensures
        final(p).wf(),
        final(p)@ == old(p)@.insert(key@, value@),
{
    p.insert(key.to_owned(), value.to_owned());
}

fn put_string(p: &mut Params, key: &str, value: String)
    requires
        old(p).wf(),
    ensures
        final(p).wf(),
        final(p)@ == old(p)@.insert(key@, value@),
{
    p.insert(key.to_owned(), value);
}

fn put_optional_number(p: &mut Params, key: &str, value: Option<u32>)
    requires
        old(p).wf(),
    ensures
        final(p).wf(),
        final(p)@ == with_optional_number(old(p)@, key@, value),
{
    if let Some(n) = value {
        put_string(p, key, u64_to_string(n as u64));
    }
}

/// The parameters `method=<method>`.
fn method_params(method: &str) -> (res: Params)
    ensures
        res.wf(),
        res@ == map![ "method"@ => method@ ],
{
    let mut p = Params::new();
    put(&mut p, "method", method);
    assert(p@ =~= map![ "method"@ => method@ ]);
    p
}

/// A client of the Last.fm web service: the application's key and secret.
pub struct LastFmClient {
    api_key: String,
    api_secret: String,
}

impl LastFmClient {
    /// The application's API key.
    pub closed spec fn key(&self) -> Seq<char> {
        self.api_key@
    }

    /// The application's shared secret.
    pub closed spec fn secret(&self) -> Seq<char> {
        self.api_secret@
    }

    /// A client for the given key and secret.
    pub fn new(api_key: String, api_secret: String) -> (res: LastFmClient)
        ensures
            res.key() == api_key@,
            res.secret() == api_secret@,
    {
        LastFmClient { api_key, api_secret }
    }

    /// The API key.
    pub fn get_api_key(&self) -> (res: &str)
        ensures
            res@ == self.key(),
    {
        self.api_key.as_str()
    }

    /// The parameters of a read request: `params` with `api_key` and
    /// `format=json` added.
    pub fn query_params(&self, params: Params) -> (res: Params)
        requires
            params.wf(),
        ensures
            res.wf(),
            res@ == keyed(params@, self.key()),
    {
        let mut p = params;
        put(&mut p, "api_key", self.api_key.as_str());
        put(&mut p, "format", "json");
        p
    }

    /// The parameters of a signed request: `params` with `api_key` and
    /// `format=json` added, and `api_sig`, the signature of those.
    pub fn signed_params(&self, params: Params) -> (res: Params)
        requires
            params.wf(),
        ensures
            res.wf(),
            res@ == signed(params@, self.key(), self.secret()),
    {
        let mut p = self.query_params(params);
        let api_sig = sign(&p, self.api_secret.as_str());
        put_string(&mut p, "api_sig", api_sig);
        p
    }

    /// The signature of `params` under the client's secret.
    pub fn create_api_sig(&self, params: &Params) -> (res: String)
        ensures
            res@ == api_signature(params.entry_seq(), self.secret()),
            params.wf() ==> res@ == api_signature(sorted_entries(params@), self.secret()),
    {
        sign(params, self.api_secret.as_str())
    }

    /// `user.getInfo` for `username`.
    pub fn user_info_params(username: &str) -> (res: Params)
        ensures
            res.wf(),
            res@ == map![ "method"@ => "user.getInfo"@, "user"@ => username@ ],
    {
        let mut p = method_params("user.getInfo");
        put(&mut p, "user", username);
        assert(p@ =~= map![ "method"@ => "user.getInfo"@, "user"@ => username@ ]);
        p
    }

    /// `user.getRecentTracks` for `username`, with the optional page size and page.
    pub fn recent_tracks_params(username: &str, limit: Option<u32>, page: Option<u32>) -> (res:
        Params)
        ensures
            res.wf(),
            res@ == with_optional_number(
                with_optional_number(
                    map![ "method"@ => "user.getRecentTracks"@, "user"@ => username@ ],
                    "limit"@,
                    limit,
                ),
                "page"@,
                page,
            ),
    {
        let mut p = method_params("user.getRecentTracks");
        put(&mut p, "user", username);
        assert(p@ =~= map![ "method"@ => "user.getRecentTracks"@, "user"@ => username@ ]);
        put_optional_number(&mut p, "limit", limit);
        put_optional_number(&mut p, "page", page);
        p
    }

    /// `user.getRecentTracks` for the session's user, with the optional page
    /// size and page.
    pub fn recent_tracks_with_session_params(
        session_key: &str,
        limit: Option<u32>,
        page: Option<u32>,
    ) -> (res: Params)
        ensures
            res.wf(),
            res@ == with_optional_number(
                with_optional_number(
                    map![ "method"@ => "user.getRecentTracks"@, "sk"@ => session_key@ ],
                    "limit"@,
                    limit,
                ),
                "page"@,
                page,
            ),
    {
        let mut p = method_params("user.getRecentTracks");
        put(&mut p, "sk", session_key);
        assert(p@ =~= map![ "method"@ => "user.getRecentTracks"@, "sk"@ => session_key@ ]);
        put_optional_number(&mut p, "limit", limit);
        put_optional_number(&mut p, "page", page);
        p
    }

    /// `user.getRecentTracks` since the UNIX time `from`, one track per page,
    /// so that the page's `total` is the number of scrobbles since then.
    pub fn scrobbles_count_since_params(session_key: &str, from: i64) -> (res: Params)
        ensures
            res.wf(),
            res@ == map![
                "method"@ => "user.getRecentTracks"@,
                "sk"@ => session_key@,
                "from"@ => signed_decimal(from as int),
                "limit"@ => "1"@
            ],
    {
        let mut p = method_params("user.getRecentTracks");
        put(&mut p, "sk", session_key);
        put_string(&mut p, "from", i64_to_string(from));
        put(&mut p, "limit", "1");
        assert(p@ =~= map![
            "method"@ => "user.getRecentTracks"@,
            "sk"@ => session_key@,
            "from"@ => signed_decimal(from as int),
            "limit"@ => "1"@
        ]);
        p
    }

    /// A chart request (`user.getTopArtists`, `user.getTopAlbums` or
    /// `user.getTopTracks`) for `username` over `period`, `limit` entries long.
    fn chart_params(method: &str, username: &str, period: &str, limit: u32) -> (res: Params)
        ensures
            res.wf(),
            res@ == map![
                "method"@ => method@,
                "user"@ => username@,
                "period"@ => period@,
                "limit"@ => decimal(limit as nat)
            ],
    {
        let mut p = method_params(method);
        put(&mut p, "user", username);
        put(&mut p, "period", period);
        put_string(&mut p, "limit", u64_to_string(limit as u64));
        assert(p@ =~= map![
            "method"@ => method@,
            "user"@ => username@,
            "period"@ => period@,
            "limit"@ => decimal(limit as nat)
        ]);
        p
    }

    /// `user.getTopArtists`.
    pub fn top_artists_params(username: &str, period: &str, limit: u32) -> (res: Params)
        ensures
            res.wf(),
            res@ == map![
                "method"@ => "user.getTopArtists"@,
                "user"@ => username@,
                "period"@ => period@,
                "limit"@ => decimal(limit as nat)
            ],
    {
        Self::chart_params("user.getTopArtists", username, period, limit)
    }

    /// `user.getTopAlbums`.
    pub fn top_albums_params(username: &str, period: &str, limit: u32) -> (res: Params)
        ensures
            res.wf(),
            res@ == map![
                "method"@ => "user.getTopAlbums"@,
                "user"@ => username@,
                "period"@ => period@,
                "limit"@ => decimal(limit as nat)
            ],
    {
        Self::chart_params("user.getTopAlbums", username, period, limit)
    }

    /// `user.getTopTracks`.
    pub fn top_tracks_params(username: &str, period: &str, limit: u32) -> (res: Params)
        ensures
            res.wf(),
            res@ == map![
                "method"@ => "user.getTopTracks"@,
                "user"@ => username@,
                "period"@ => period@,
                "limit"@ => decimal(limit as nat)
            ],
    {
        Self::chart_params("user.getTopTracks", username, period, limit)
    }

    /// `artist.getInfo` for `artist`.
    pub fn artist_info_params(artist: &str) -> (res: Params)
        ensures
            res.wf(),
            res@ == map![ "method"@ => "artist.getInfo"@, "artist"@ => artist@ ],
    {
        let mut p = method_params("artist.getInfo");
        put(&mut p, "artist", artist);
        assert(p@ =~= map![ "method"@ => "artist.getInfo"@, "artist"@ => artist@ ]);
        p
    }

    /// `user.getLovedTracks` for `username`, one track per page, so that the
    /// page's `total` is the number of loved tracks.
    pub fn loved_tracks_count_params(username: &str) -> (res: Params)
        ensures
            res.wf(),
            res@ == map![
                "method"@ => "user.getLovedTracks"@,
                "user"@ => username@,
                "limit"@ => "1"@
            ],
    {
        let mut p = method_params("user.getLovedTracks");
        put(&mut p, "user", username);
        put(&mut p, "limit", "1");
        assert(p@ =~= map![
            "method"@ => "user.getLovedTracks"@,
            "user"@ => username@,
            "limit"@ => "1"@
        ]);
        p
    }

    /// `auth.getToken`.
    pub fn token_params() -> (res: Params)
        ensures
            res.wf(),
            res@ == map![ "method"@ => "auth.getToken"@ ],
    {
        method_params("auth.getToken")
    }

    /// `auth.getSession` for an authorised request token.
    pub fn session_params(token: &str) -> (res: Params)
        ensures
            res.wf(),
            res@ == map![ "method"@ => "auth.getSession"@, "token"@ => token@ ],
    {
        let mut p = method_params("auth.getSession");
        put(&mut p, "token", token);
        assert(p@ =~= map![ "method"@ => "auth.getSession"@, "token"@ => token@ ]);
        p
    }

    /// Judges a reply before its body is decoded as the expected record: an
    /// unsuccessful status is an API error naming the status, and a body that
    /// decodes as an error reply is an API error with that reply's message.
    pub fn check_response(status_success: bool, status: &str, api_error: Option<LastFmError>) -> (res:
        Result<(), LastFmClientError>)
        ensures
            !status_success ==> (res matches Err(LastFmClientError::ApiError(m)) && m@
                == "HTTP error: "@ + status@),
            status_success && api_error is Some ==> (res matches Err(LastFmClientError::ApiError(m))
                && m == api_error->0.message),
            status_success && api_error is None ==> res is Ok,
    {
        if !status_success {
            return Err(LastFmClientError::ApiError(concat("HTTP error: ", status)));
        }
        match api_error {
            Some(e) => Err(LastFmClientError::ApiError(e.message)),
            None => Ok(()),
        }
    }

    /// A count that the API sends as a decimal string (`total`), or zero when
    /// it is not one.
    pub fn count_from_total(total: &str) -> (res: u64)
        ensures
            res == count_or_zero(total@),
    {
        proof {
            crate::text::lemma_parse_unsigned_bound(total@, u64::MAX as nat);
        }
        match parse_u64(total) {
            Ok(v) => v,
            Err(_) => 0,
        }
    }
}

} // verus!
