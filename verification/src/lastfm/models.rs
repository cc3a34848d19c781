//! The data that the Last.fm API returns, and the reading of numbers that
//! the API sends either as JSON numbers or as decimal strings.

use vstd::prelude::*;
use crate::text::{
    parse_i64, parse_u64, parse_u32, parse_i64_spec, parse_unsigned, int_error_message,
};

verus! {

/// A Last.fm user profile.
#[derive(Clone, Debug, PartialEq, Eq)]
pub struct User {
    pub name: String,
    pub realname: Option<String>,
    pub url: String,
    pub image: Vec<Image>,
    pub country: Option<String>,
    pub age: Option<u32>,
    pub gender: Option<String>,
    pub subscriber: u32,
    pub playcount: u64,
    pub playlists: u32,
    pub bootstrap: u32,
    pub registered: Registered,
}

/// When a user registered.
#[derive(Clone, Debug, PartialEq, Eq)]
pub struct Registered {
    pub unixtime: i64,
    pub text: u64,
}

/// One size of an image: its URL (`#text`) and the size's name.
#[derive(Clone, Debug, PartialEq, Eq)]
pub struct Image {
    pub text: String,
    pub size: String,
}

/// A track of the recent-tracks list.
#[derive(Clone, Debug, PartialEq, Eq)]
pub struct Track {
    pub name: String,
    pub artist: Artist,
    pub url: String,
    pub mbid: Option<String>,
    pub album: Option<Album>,
    pub image: Vec<Image>,
    pub attr: Option<TrackAttr>,
    pub date: Option<TrackDate>,
}

/// An artist as the API names it inside other records.
#[derive(Clone, Debug, PartialEq, Eq)]
pub struct Artist {
    pub name: String,
    pub mbid: Option<String>,
    pub url: String,
}

impl Default for Artist {
    fn default() -> (res: Artist)
        ensures
            res.name@ == Seq::<char>::empty(),
            res.mbid is None,
            res.url@ == Seq::<char>::empty(),
    {
        Artist { name: String::new(), mbid: None, url: String::new() }
    }
}

/// The album of a track.
#[derive(Clone, Debug, PartialEq, Eq)]
pub struct Album {
    pub artist: String,
    pub text: String,
    pub mbid: Option<String>,
    pub url: String,
}

/// Extra attributes of a track (`@attr`).
#[derive(Clone, Debug, PartialEq, Eq)]
pub struct TrackAttr {
    pub nowplaying: Option<String>,
}

/// When a track was scrobbled.
#[derive(Clone, Debug, PartialEq, Eq)]
pub struct TrackDate {
    pub uts: i64,
    pub text: String,
}

/// The body of a `user.getRecentTracks` reply.
#[derive(Clone, Debug, PartialEq, Eq)]
pub struct RecentTracksResponse {
    pub recenttracks: RecentTracks,
}

/// A page of recent tracks.
#[derive(Clone, Debug, PartialEq, Eq)]
pub struct RecentTracks {
    pub attr: RecentTracksAttr,
    pub track: Vec<Track>,
}

/// Paging attributes of the recent-tracks list.
#[allow(non_snake_case)]
#[derive(Clone, Debug, PartialEq, Eq)]
pub struct RecentTracksAttr {
    pub user: String,
    pub total: String,
    pub page: String,
    pub perPage: String,
    pub totalPages: String,
}

/// The body of a `user.getInfo` reply.
#[derive(Clone, Debug, PartialEq, Eq)]
pub struct UserInfoResponse {
    pub user: User,
}

/// The body of an `auth.getSession` reply.
#[derive(Clone, Debug, PartialEq, Eq)]
pub struct SessionResponse {
    pub session: Session,
}

/// An authenticated session.
#[derive(Clone, Debug, PartialEq, Eq)]
pub struct Session {
    pub name: String,
    pub key: String,
    pub subscriber: u32,
}

/// An error reply of the API.
#[derive(Clone, Debug, PartialEq, Eq)]
pub struct LastFmError {
    pub error: u32,
    pub message: String,
}

/// The body of a `user.getTopArtists` reply.
#[derive(Clone, Debug, PartialEq, Eq)]
pub struct TopArtistsResponse {
    pub topartists: TopArtists,
}

/// A chart of artists.
#[derive(Clone, Debug, PartialEq, Eq)]
pub struct TopArtists {
    pub artist: Vec<TopArtist>,
}

/// An artist of a chart.
#[derive(Clone, Debug, PartialEq, Eq)]
pub struct TopArtist {
    pub name: String,
    pub url: String,
    pub image: Vec<Image>,
    pub playcount: String,
}

/// The body of an `artist.getInfo` reply.
#[derive(Clone, Debug, PartialEq, Eq)]
pub struct ArtistInfoResponse {
    pub artist: ArtistInfo,
}

/// Information about an artist.
#[derive(Clone, Debug, PartialEq, Eq)]
pub struct ArtistInfo {
    pub name: String,
    pub url: String,
    pub image: Vec<Image>,
}

/// The body of a `user.getTopAlbums` reply.
#[derive(Clone, Debug, PartialEq, Eq)]
pub struct TopAlbumsResponse {
    pub topalbums: TopAlbums,
}

/// A chart of albums.
#[derive(Clone, Debug, PartialEq, Eq)]
pub struct TopAlbums {
    pub album: Vec<TopAlbum>,
}

/// An album of a chart.
#[derive(Clone, Debug, PartialEq, Eq)]
pub struct TopAlbum {
    pub name: String,
    pub artist: Artist,
    pub url: String,
    pub image: Vec<Image>,
    pub playcount: String,
}

/// The body of a `user.getTopTracks` reply.
#[derive(Clone, Debug, PartialEq, Eq)]
pub struct TopTracksResponse {
    pub toptracks: TopTracks,
}

/// A chart of tracks.
#[derive(Clone, Debug, PartialEq, Eq)]
pub struct TopTracks {
    pub track: Vec<TopTrack>,
}

/// A track of a chart.
#[derive(Clone, Debug, PartialEq, Eq)]
pub struct TopTrack {
    pub name: String,
    pub artist: Artist,
    pub url: String,
    pub image: Vec<Image>,
    pub playcount: String,
}

/// The body of a `user.getLovedTracks` reply.
#[derive(Clone, Debug, PartialEq, Eq)]
pub struct LovedTracksResponse {
    pub lovedtracks: LovedTracks,
}

/// The loved-tracks list, of which only the attributes are read.
#[derive(Clone, Debug, PartialEq, Eq)]
pub struct LovedTracks {
    pub attr: LovedTracksAttr,
}

/// Attributes of the loved-tracks list.
#[derive(Clone, Debug, PartialEq, Eq)]
pub struct LovedTracksAttr {
    pub total: String,
}

// ---------------------------------------------------------------------------
// Numbers sent as JSON numbers or as strings
// ---------------------------------------------------------------------------
/// A number as the API may send it: a JSON number, or a string of digits.
#[derive(Clone, Debug, PartialEq, Eq)]
pub enum NumberOrString<N> {
    Number(N),
    Text(String),
}

/// The message of a failed `u32::try_from`.
pub open spec fn out_of_range_message() -> Seq<char> {
    "out of range integral type conversion attempted"@
}

/// An `i64` field: a number as it is, a string parsed as `i64`; the error is
/// the parser's message.
pub fn i64_from_number_or_string(value: NumberOrString<i64>) -> (res: Result<i64, String>)
    ensures
        match value {
            NumberOrString::Number(n) => res == Ok::<i64, String>(n),
            NumberOrString::Text(s) => match parse_i64_spec(s@) {
                Ok(v) => res == Ok::<i64, String>(v as i64),
                Err(k) => res matches Err(m) && m@ == int_error_message(k),
            },
        },
{
    match value {
        NumberOrString::Number(n) => Ok(n),
        NumberOrString::Text(s) => match parse_i64(s.as_str()) {
            Ok(v) => Ok(v),
            Err(k) => Err(k.message()),
        },
    }
}

/// A `u64` field: a number as it is, a string parsed as `u64`.
pub fn u64_from_number_or_string(value: NumberOrString<u64>) -> (res: Result<u64, String>)
    ensures
        match value {
            NumberOrString::Number(n) => res == Ok::<u64, String>(n),
            NumberOrString::Text(s) => match parse_unsigned(s@, u64::MAX as nat) {
                Ok(v) => res == Ok::<u64, String>(v as u64),
                Err(k) => res matches Err(m) && m@ == int_error_message(k),
            },
        },
{
    match value {
        NumberOrString::Number(n) => Ok(n),
        NumberOrString::Text(s) => match parse_u64(s.as_str()) {
            Ok(v) => Ok(v),
            Err(k) => Err(k.message()),
        },
    }
}

/// A `u32` field read as a `u64` field first and then narrowed; a value
/// above `u32::MAX` is refused with the conversion's message.
pub fn u32_from_number_or_string(value: NumberOrString<u64>) -> (res: Result<u32, String>)
    ensures
        match value {
            NumberOrString::Number(n) => if n <= u32::MAX {
                res == Ok::<u32, String>(n as u32)
            } else {
                res matches Err(m) && m@ == out_of_range_message()
            },
            NumberOrString::Text(s) => match parse_unsigned(s@, u64::MAX as nat) {
                Ok(v) => if v <= u32::MAX {
                    res == Ok::<u32, String>(v as u32)
                } else {
                    res matches Err(m) && m@ == out_of_range_message()
                },
                Err(k) => res matches Err(m) && m@ == int_error_message(k),
            },
        },
{
    proof {
        if value is Text {
            crate::text::lemma_parse_unsigned_bound(value->Text_0@, u64::MAX as nat);
        }
    }
    let wide = u64_from_number_or_string(value);
    match wide {
        Ok(v) => {
            if v <= u32::MAX as u64 {
                Ok(v as u32)
            } else {
                let m = String::from_str("out of range integral type conversion attempted");
                assert(m@ == out_of_range_message());
                Err(m)
            }
        },
        Err(m) => Err(m),
    }
}

/// An optional `u32` field: absent stays absent, a number is kept, a string
/// is parsed as `u32`.
pub fn optional_u32_from_number_or_string(value: Option<NumberOrString<u32>>) -> (res: Result<
    Option<u32>,
    String,
>)
    ensures
        match value {
            None => res == Ok::<Option<u32>, String>(None),
            Some(NumberOrString::Number(n)) => res == Ok::<Option<u32>, String>(Some(n)),
            Some(NumberOrString::Text(s)) => match parse_unsigned(s@, u32::MAX as nat) {
                Ok(v) => res == Ok::<Option<u32>, String>(Some(v as u32)),
                Err(k) => res matches Err(m) && m@ == int_error_message(k),
            },
        },
{
    match value {
        None => Ok(None),
        Some(NumberOrString::Number(n)) => Ok(Some(n)),
        Some(NumberOrString::Text(s)) => match parse_u32(s.as_str()) {
            Ok(v) => Ok(Some(v)),
            Err(k) => Err(k.message()),
        },
    }
}

} // verus!
