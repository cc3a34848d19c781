use scrobblist::timestamps::timestamp_representable;
use scrobblist::commands::auth::{
    api_credentials, auth_token_argument, session_from_keychain, signed_in, signed_out,
    AuthUrlResponse, SessionResponse,
};
use scrobblist::commands::user::{
    chart_kind, chart_limit, encode_lastfm_path, last_image_url_exec, needs_artist_info,
    normalize_image_url, preferred_image_url_exec, profile_response, recent_tracks_from_api,
    recent_tracks_from_cache, recent_tracks_limit, recent_tracks_page, serve_from_cache,
    top_album_item, top_artist_item, top_track_item, track_response, validate_period,
    week_before, ChartKind, TopItemResponse,
};
use scrobblist::database::models::{stored_image_url, CachedTrack};
use scrobblist::lastfm::auth::AuthError;
use scrobblist::lastfm::models::{
    Album, Artist, ArtistInfo, Image, Registered, TopAlbum, TopArtist, TopTrack, Track,
    TrackAttr, TrackDate, User,
};

fn img(text: &str, size: &str) -> Image {
    Image { text: text.to_string(), size: size.to_string() }
}

#[test]
fn image_urls_are_trimmed_and_upgraded() {
    assert_eq!(normalize_image_url("  http://img/a.png "), Some("https://img/a.png".to_string()));
    assert_eq!(normalize_image_url("https://img/a.png"), Some("https://img/a.png".to_string()));
    assert_eq!(normalize_image_url("x http://y"), Some("x https://y".to_string()));
    assert_eq!(normalize_image_url("   "), None);
    assert_eq!(normalize_image_url(""), None);
}

#[test]
fn image_selection() {
    let images = vec![img("http://s", "small"), img("", "extralarge")];
    assert_eq!(last_image_url_exec(&images), Some("https://s".to_string()));
    assert_eq!(preferred_image_url_exec(&images), Some("https://s".to_string()));
    let images = vec![img("http://s", "small"), img(" http://xl ", "extralarge"), img("http://m", "medium")];
    assert_eq!(last_image_url_exec(&images), Some("https://m".to_string()));
    assert_eq!(preferred_image_url_exec(&images), Some("https://xl".to_string()));
    assert_eq!(last_image_url_exec(&vec![]), None);
    assert_eq!(preferred_image_url_exec(&vec![img(" ", "small")]), None);
}

#[test]
fn stored_images_are_not_normalised() {
    assert_eq!(stored_image_url(&vec![img("a", "small"), img("b", "extralarge")]), Some("b".to_string()));
    assert_eq!(stored_image_url(&vec![img("a", "small"), img("c", "large")]), Some("a".to_string()));
    assert_eq!(stored_image_url(&vec![img("", "extralarge")]), Some("".to_string()));
    assert_eq!(stored_image_url(&vec![]), None);
}

#[test]
fn lastfm_paths() {
    assert_eq!(encode_lastfm_path("Sigur Rós"), "Sigur+R%C3%B3s");
}

#[test]
fn chart_arguments() {
    assert_eq!(validate_period("7day"), Ok(()));
    assert_eq!(validate_period("overall"), Ok(()));
    assert_eq!(validate_period("2day"), Err("Invalid chart period".to_string()));
    assert_eq!(chart_kind("artists"), Ok(ChartKind::Artists));
    assert_eq!(chart_kind("albums"), Ok(ChartKind::Albums));
    assert_eq!(chart_kind("tracks"), Ok(ChartKind::Tracks));
    assert_eq!(chart_kind("songs"), Err("Invalid chart type".to_string()));
    assert_eq!(chart_limit(None), 50);
    assert_eq!(chart_limit(Some(7)), 7);
}

#[test]
fn chart_artists() {
    let item = TopArtist { name: "Sigur Rós".to_string(), url: String::new(), image: vec![], playcount: "12".to_string() };
    assert!(needs_artist_info(&item));
    assert_eq!(
        top_artist_item(item.clone(), None),
        TopItemResponse {
            name: "Sigur Rós".to_string(),
            artist: None,
            url: "https://www.last.fm/music/Sigur+R%C3%B3s".to_string(),
            image_url: None,
            playcount: 12,
        }
    );
    let info = ArtistInfo { name: "Sigur Rós".to_string(), url: "https://last.fm/sr".to_string(), image: vec![img("http://i", "large")] };
    assert_eq!(
        top_artist_item(item, Some(info)),
        TopItemResponse {
            name: "Sigur Rós".to_string(),
            artist: None,
            url: "https://last.fm/sr".to_string(),
            image_url: Some("https://i".to_string()),
            playcount: 12,
        }
    );
    let item = TopArtist { name: "A".to_string(), url: "u".to_string(), image: vec![img("x", "s")], playcount: "lots".to_string() };
    assert!(!needs_artist_info(&item));
    let r = top_artist_item(item, None);
    assert_eq!((r.url.as_str(), r.image_url.as_deref(), r.playcount), ("u", Some("x"), 0));
}

#[test]
fn chart_albums_and_tracks() {
    let artist = Artist { name: "Björk".to_string(), mbid: None, url: String::new() };
    let album = TopAlbum { name: "Homogenic".to_string(), artist: artist.clone(), url: "u".to_string(), image: vec![img("a", "s")], playcount: "3".to_string() };
    assert_eq!(
        top_album_item(album),
        TopItemResponse { name: "Homogenic".to_string(), artist: Some("Björk".to_string()), url: "u".to_string(), image_url: Some("a".to_string()), playcount: 3 }
    );
    let track = TopTrack { name: "Joga".to_string(), artist, url: "v".to_string(), image: vec![], playcount: "".to_string() };
    assert_eq!(
        top_track_item(track),
        TopItemResponse { name: "Joga".to_string(), artist: Some("Björk".to_string()), url: "v".to_string(), image_url: None, playcount: 0 }
    );
    assert_eq!(Artist::default(), Artist { name: String::new(), mbid: None, url: String::new() });
}

fn user(unixtime: i64) -> User {
    User {
        name: "rj".to_string(),
        realname: Some("Richard".to_string()),
        url: "https://www.last.fm/user/rj".to_string(),
        image: vec![img("http://s", "small"), img("http://xl", "extralarge")],
        country: None,
        age: Some(30),
        gender: None,
        subscriber: 1,
        playcount: 1000,
        playlists: 0,
        bootstrap: 0,
        registered: Registered { unixtime, text: 0 },
    }
}

#[test]
fn profile() {
    let p = profile_response(user(0), 5, 7);
    assert_eq!(p.username, "rj");
    assert_eq!(p.image_url.as_deref(), Some("https://xl"));
    assert!(p.subscriber);
    assert_eq!(p.registered_at, "1970-01-01T00:00:00+00:00");
    assert_eq!((p.playcount, p.loved_songs, p.weekly_scrobbles, p.age), (1000, 5, 7, Some(30)));
    let p = profile_response(user(i64::MAX), 0, 0);
    assert_eq!(p.registered_at, "");
    assert_eq!(week_before(1_000_000), 1_000_000 - 7 * 86_400);
}

fn track(name: &str, playing: bool, uts: Option<i64>) -> Track {
    Track {
        name: name.to_string(),
        artist: Artist { name: "A".to_string(), mbid: None, url: "au".to_string() },
        url: "tu".to_string(),
        mbid: None,
        album: Some(Album { artist: "A".to_string(), text: "Al".to_string(), mbid: None, url: "alu".to_string() }),
        image: vec![img("http://i", "small")],
        attr: if playing { Some(TrackAttr { nowplaying: Some("true".to_string()) }) } else { None },
        date: uts.map(|u| TrackDate { uts: u, text: String::new() }),
    }
}

#[test]
fn tracks_from_the_api() {
    let r = track_response(track("one", false, Some(1_700_000_000)));
    assert_eq!(r.scrobbled_at.as_deref(), Some("2023-11-14T22:13:20+00:00"));
    assert_eq!(r.album.as_deref(), Some("Al"));
    assert_eq!(r.album_url.as_deref(), Some("alu"));
    assert_eq!(r.image_url.as_deref(), Some("https://i"));
    assert!(!r.now_playing);
    let mut t = track("x", false, None);
    t.attr = Some(TrackAttr { nowplaying: Some("false".to_string()) });
    assert!(!track_response(t).now_playing);
    let resp = recent_tracks_from_api(vec![track("one", false, Some(1)), track("two", true, None), track("three", true, None)]);
    assert_eq!(resp.tracks.len(), 3);
    assert_eq!(resp.tracks[0].name, "one");
    assert_eq!(resp.now_playing.unwrap().name, "two");
    assert!(recent_tracks_from_api(vec![track("one", false, Some(1))]).now_playing.is_none());
}

fn cached(name: &str, playing: bool) -> CachedTrack {
    CachedTrack {
        id: 1,
        username: "rj".to_string(),
        track_name: name.to_string(),
        artist_name: "A".to_string(),
        artist_url: "au".to_string(),
        album_name: Some("Al".to_string()),
        track_url: "tu".to_string(),
        image_url: None,
        now_playing: playing,
        scrobbled_at: Some("2023-11-14T22:13:20+00:00".to_string()),
        cached_at: "2023-11-14T22:13:21+00:00".to_string(),
    }
}

#[test]
fn tracks_from_the_cache() {
    let resp = recent_tracks_from_cache(vec![cached("a", false), cached("b", false)], Some(cached("c", true)));
    assert_eq!(resp.tracks.iter().map(|t| t.name.as_str()).collect::<Vec<_>>(), vec!["a", "b"]);
    assert_eq!(resp.tracks[0].album_url, None);
    assert_eq!(resp.tracks[0].scrobbled_at.as_deref(), Some("2023-11-14T22:13:20+00:00"));
    assert_eq!(resp.now_playing.unwrap().name, "c");
}

#[test]
fn cache_is_served_only_for_the_first_page() {
    assert!(serve_from_cache(None, None, 3));
    assert!(!serve_from_cache(Some(true), None, 3));
    assert!(!serve_from_cache(None, Some(2), 3));
    assert!(!serve_from_cache(None, Some(1), 0));
    assert_eq!(recent_tracks_limit(None), 20);
    assert_eq!(recent_tracks_page(None), 1);
}

#[test]
fn credentials() {
    assert_eq!(
        api_credentials(None, Some("s".to_string())),
        Err("LASTFM_API_KEY is not configured. Add it to your environment or .env file.".to_string())
    );
    assert_eq!(
        api_credentials(Some("k".to_string()), None),
        Err("LASTFM_API_SECRET is not configured. Add it to your environment or .env file.".to_string())
    );
    assert_eq!(
        api_credentials(Some(" ".to_string()), Some("s".to_string())),
        Err("LASTFM_API_KEY and LASTFM_API_SECRET must not be empty.".to_string())
    );
    assert_eq!(api_credentials(Some(" k ".to_string()), Some("s".to_string())), Ok((" k ".to_string(), "s".to_string())));
}

#[test]
fn session_state() {
    assert_eq!(auth_token_argument("  tok "), Ok("tok".to_string()));
    assert_eq!(auth_token_argument("  "), Err("Last.fm auth token is empty.".to_string()));
    assert_eq!(signed_in("rj".to_string()), SessionResponse { username: "rj".to_string(), has_session: true });
    assert_eq!(signed_out(), SessionResponse { username: String::new(), has_session: false });
    assert_eq!(session_from_keychain(Ok(("rj".to_string(), "k".to_string()))), Ok(signed_in("rj".to_string())));
    assert_eq!(session_from_keychain(Err(AuthError::NoSession)), Ok(signed_out()));
    assert_eq!(
        session_from_keychain(Err(AuthError::KeychainError("locked".to_string()))),
        Err("Failed to get session: Keychain error: locked".to_string())
    );
    let _ = AuthUrlResponse { url: String::new() };
}

#[test]
fn representable_scrobble_times() {
    assert!(timestamp_representable(0));
    assert!(timestamp_representable(-8_334_601_228_800));
    assert!(!timestamp_representable(-8_334_601_228_801));
    assert!(timestamp_representable(8_210_266_876_799));
    assert!(!timestamp_representable(8_210_266_876_800));
    assert!(chrono::DateTime::from_timestamp(-8_334_601_228_800, 0).is_some());
    assert!(chrono::DateTime::from_timestamp(-8_334_601_228_801, 0).is_none());
    assert!(chrono::DateTime::from_timestamp(8_210_266_876_799, 0).is_some());
    assert!(chrono::DateTime::from_timestamp(8_210_266_876_800, 0).is_none());
}

#[test]
fn shown_image_urls_never_begin_with_plain_http() {
    for v in ["http://a", " http://http://b", "xhttp://c", "https://d", "hhttp://e", "http:/f", "  "] {
        match normalize_image_url(v) {
            Some(u) => {
                assert!(!u.starts_with("http://"), "{:?} gave {:?}", v, u);
                assert!(!u.is_empty());
            }
            None => assert!(v.trim().is_empty()),
        }
    }
    assert_eq!(normalize_image_url(" http://http://b"), Some("https://http://b".to_string()));
}
