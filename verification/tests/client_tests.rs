use scrobblist::lastfm::client::{api_url, LastFmClient, LastFmClientError};
use scrobblist::lastfm::models::LastFmError;
use scrobblist::lastfm::params::Params;

fn entries(p: &Params) -> Vec<(String, String)> {
    (0..p.len()).map(|i| {
        let (k, v) = p.entry(i);
        (k.clone(), v.clone())
    }).collect()
}

fn pairs(v: &[(&str, &str)]) -> Vec<(String, String)> {
    v.iter().map(|(k, v)| (k.to_string(), v.to_string())).collect()
}

#[test]
fn client_keeps_its_key() {
    let c = LastFmClient::new("KEY".to_string(), "SECRET".to_string());
    assert_eq!(c.get_api_key(), "KEY");
    assert_eq!(api_url(), "https://ws.audioscrobbler.com/2.0/");
}

#[test]
fn read_requests_carry_key_and_format() {
    let c = LastFmClient::new("KEY".to_string(), "SECRET".to_string());
    let p = c.query_params(LastFmClient::user_info_params("rj"));
    assert_eq!(
        entries(&p),
        pairs(&[("api_key", "KEY"), ("format", "json"), ("method", "user.getInfo"), ("user", "rj")])
    );
}

#[test]
fn signed_requests_carry_their_signature() {
    let c = LastFmClient::new("KEY".to_string(), "SECRET".to_string());
    let p = c.signed_params(LastFmClient::token_params());
    assert_eq!(
        entries(&p),
        pairs(&[
            ("api_key", "KEY"),
            ("api_sig", "66ee63a18da3c919f987b342697d913c"),
            ("format", "json"),
            ("method", "auth.getToken"),
        ])
    );
    let s = c.signed_params(LastFmClient::session_params("TOK"));
    assert_eq!(s.entry(1).1, "0bf279e021f3a81b4553dd7e76cf72ad");
    assert_eq!(c.create_api_sig(&c.query_params(LastFmClient::token_params())), "66ee63a18da3c919f987b342697d913c");
}

#[test]
fn recent_tracks_parameters() {
    let p = LastFmClient::recent_tracks_params("rj", Some(20), None);
    assert_eq!(entries(&p), pairs(&[("limit", "20"), ("method", "user.getRecentTracks"), ("user", "rj")]));
    let p = LastFmClient::recent_tracks_with_session_params("SK", None, Some(3));
    assert_eq!(entries(&p), pairs(&[("method", "user.getRecentTracks"), ("page", "3"), ("sk", "SK")]));
    let p = LastFmClient::scrobbles_count_since_params("SK", -5);
    assert_eq!(
        entries(&p),
        pairs(&[("from", "-5"), ("limit", "1"), ("method", "user.getRecentTracks"), ("sk", "SK")])
    );
}

#[test]
fn chart_and_info_parameters() {
    let p = LastFmClient::top_artists_params("rj", "7day", 50);
    assert_eq!(
        entries(&p),
        pairs(&[("limit", "50"), ("method", "user.getTopArtists"), ("period", "7day"), ("user", "rj")])
    );
    assert_eq!(entries(&LastFmClient::top_albums_params("rj", "overall", 5))[1].1, "user.getTopAlbums");
    assert_eq!(entries(&LastFmClient::top_tracks_params("rj", "overall", 5))[1].1, "user.getTopTracks");
    assert_eq!(
        entries(&LastFmClient::artist_info_params("Cher")),
        pairs(&[("artist", "Cher"), ("method", "artist.getInfo")])
    );
    assert_eq!(
        entries(&LastFmClient::loved_tracks_count_params("rj")),
        pairs(&[("limit", "1"), ("method", "user.getLovedTracks"), ("user", "rj")])
    );
}

#[test]
fn replies_are_judged_before_decoding() {
    assert_eq!(
        LastFmClient::check_response(false, "404 Not Found", None),
        Err(LastFmClientError::ApiError("HTTP error: 404 Not Found".to_string()))
    );
    let e = LastFmError { error: 10, message: "Invalid API key".to_string() };
    assert_eq!(
        LastFmClient::check_response(true, "200 OK", Some(e)),
        Err(LastFmClientError::ApiError("Invalid API key".to_string()))
    );
    assert_eq!(LastFmClient::check_response(true, "200 OK", None), Ok(()));
}

#[test]
fn counts_default_to_zero() {
    assert_eq!(LastFmClient::count_from_total("1234"), 1234);
    assert_eq!(LastFmClient::count_from_total(""), 0);
    assert_eq!(LastFmClient::count_from_total("n/a"), 0);
}

#[test]
fn client_error_messages() {
    assert_eq!(LastFmClientError::ApiError("x".to_string()).message(), "Last.fm API error: x");
    assert_eq!(LastFmClientError::HttpError("x".to_string()).message(), "HTTP request failed: x");
    assert_eq!(LastFmClientError::SerializationError("x".to_string()).message(), "Serialization error: x");
    assert_eq!(LastFmClientError::MissingApiKey.message(), "Missing API key");
}

#[test]
fn a_signed_request_checks_out() {
    let c = LastFmClient::new("KEY".to_string(), "SECRET".to_string());
    let signed = c.signed_params(LastFmClient::session_params("TOK"));
    let mut rest = Params::new();
    let mut api_sig = String::new();
    for (k, v) in entries(&signed) {
        if k == "api_sig" {
            api_sig = v;
        } else {
            rest.insert(k, v);
        }
    }
    assert_eq!(c.create_api_sig(&rest), api_sig);
}
