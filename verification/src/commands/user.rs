//! What the profile, recent-tracks and chart views show: image selection,
//! link fallbacks, counts, and the shaping of API and cached data into the
//! responses handed to the user interface.

use vstd::prelude::*;
use vstd::utf8::encode_utf8;
use crate::database::models::CachedTrack;
use crate::lastfm::auth::{form_urlencode, form_urlencoded, same_text, starts_with};
use crate::lastfm::client::{LastFmClient, count_or_zero};
use crate::lastfm::models::{
    ArtistInfo, Image, TopAlbum, TopArtist, TopTrack, Track, TrackAttr, TrackDate, User,
};
use crate::text::{concat, is_blank, replace_first, replace_first_exec, trim, trimmed, find_from, occurs_at};
use crate::timestamps::{rfc3339_from_timestamp, rfc3339_utc, timestamp_in_range};

verus! {

/// The text of an optional string.
pub open spec fn opt_text(o: Option<String>) -> Option<Seq<char>> {
    match o {
        Some(s) => Some(s@),
        None => None,
    }
}

fn copy_opt(o: &Option<String>) -> (res: Option<String>)
    ensures
        opt_text(res) == opt_text(*o),
{
    match o {
        Some(s) => Some(s.clone()),
        None => None,
    }
}

// ---------------------------------------------------------------------------
// Responses
// ---------------------------------------------------------------------------
/// The signed-in user's profile.
#[derive(Debug, PartialEq, Eq)]
pub struct ProfileResponse {
    pub username: String,
    pub realname: Option<String>,
    pub url: String,
    pub image_url: Option<String>,
    pub country: Option<String>,
    pub playcount: u64,
    pub loved_songs: u64,
    pub age: Option<u32>,
    pub gender: Option<String>,
    pub subscriber: bool,
    pub registered_at: String,
    pub weekly_scrobbles: u64,
}

/// One track of the recent-tracks view.
#[derive(Debug, PartialEq, Eq)]
pub struct TrackResponse {
    pub name: String,
    pub artist: String,
    pub artist_url: String,
    pub album: Option<String>,
    pub album_url: Option<String>,
    pub url: String,
    pub image_url: Option<String>,
    pub now_playing: bool,
    pub scrobbled_at: Option<String>,
}

impl TrackResponse {
    /// A copy of the response.
    pub fn copy(&self) -> (res: TrackResponse)
        ensures
            same_track_response(res, *self),
    {
        TrackResponse {
            name: self.name.clone(),
            artist: self.artist.clone(),
            artist_url: self.artist_url.clone(),
            album: copy_opt(&self.album),
            album_url: copy_opt(&self.album_url),
            url: self.url.clone(),
            image_url: copy_opt(&self.image_url),
            now_playing: self.now_playing,
            scrobbled_at: copy_opt(&self.scrobbled_at),
        }
    }
}

/// Two track responses show the same.
pub open spec fn same_track_response(a: TrackResponse, b: TrackResponse) -> bool {
    &&& a.name@ == b.name@
    &&& a.artist@ == b.artist@
    &&& a.artist_url@ == b.artist_url@
    &&& opt_text(a.album) == opt_text(b.album)
    &&& opt_text(a.album_url) == opt_text(b.album_url)
    &&& a.url@ == b.url@
    &&& opt_text(a.image_url) == opt_text(b.image_url)
    &&& a.now_playing == b.now_playing
    &&& opt_text(a.scrobbled_at) == opt_text(b.scrobbled_at)
}

/// The recent-tracks view: the tracks, and the one playing now if any.
#[derive(Debug, PartialEq, Eq)]
pub struct RecentTracksResponse {
    pub tracks: Vec<TrackResponse>,
    pub now_playing: Option<TrackResponse>,
}

/// One entry of a chart.
#[derive(Debug, PartialEq, Eq)]
pub struct TopItemResponse {
    pub name: String,
    pub artist: Option<String>,
    pub url: String,
    pub image_url: Option<String>,
    pub playcount: u64,
}

// ---------------------------------------------------------------------------
// Images
// ---------------------------------------------------------------------------
/// An image URL as shown: trimmed, `None` when blank, and with its first
/// `http://` turned into `https://`.
pub open spec fn normalized_image_url(v: Seq<char>) -> Option<Seq<char>> {
    let t = trimmed(v);
    if t.len() == 0 {
        None
    } else {
        Some(replace_first(t, "http://"@, "https://"@))
    }
}

/// A shown image URL is never blank, and never begins with `http://`: an
/// image is shown exactly when its URL is not blank, and a URL that began
/// with `http://` is shown as `https://`.
pub proof fn law_normalized_image_url(v: Seq<char>)
    ensures
        normalized_image_url(v) is None <==> trimmed(v).len() == 0,
        normalized_image_url(v) matches Some(u) ==> u.len() > 0 && !starts_with(u, "http://"@),
        starts_with(trimmed(v), "http://"@) ==> normalized_image_url(v) == Some(
            "https://"@ + trimmed(v).subrange(7, trimmed(v).len() as int),
        ),
{
    reveal_strlit("http://");
    reveal_strlit("https://");
    let t = trimmed(v);
    let pat = "http://"@;
    let rep = "https://"@;
    if t.len() > 0 {
        crate::text::lemma_find_from_bounds(t, pat, 0);
        let u = replace_first(t, pat, rep);
        match find_from(t, pat, 0) {
            None => {
                if starts_with(u, pat) {
                    assert(occurs_at(t, pat, 0));
                }
            },
            Some(i) => {
                assert(u.len() >= 8);
                if i == 0 {
                    assert(u[4] == 's');
                    assert(pat[4] == ':');
                    assert(u.subrange(0, 7)[4] != pat[4]);
                } else if i >= 7 {
                    assert(u.subrange(0, 7) =~= t.subrange(0, 7));
                    assert(!occurs_at(t, pat, 0));
                } else {
                    assert(u[i] == 'h');
                    assert(pat[i] != 'h');
                    assert(u.subrange(0, 7)[i] != pat[i]);
                }
            },
        }
        if starts_with(t, pat) {
            assert(occurs_at(t, pat, 0));
            assert(t.subrange(0, 0) =~= Seq::<char>::empty());
        }
    }
}

/// Normalises an image URL for display.
pub fn normalize_image_url(value: &str) -> (res: Option<String>)
    ensures
        opt_text(res) == normalized_image_url(value@),
{
    let value = trim(value);
    if value.as_str().is_empty() {
        return None;
    }
    Some(replace_first_exec(value.as_str(), "http://", "https://"))
}

/// The link-safe form of a name (`application/x-www-form-urlencoded`).
pub fn encode_lastfm_path(value: &str) -> (res: String)
    ensures
        res@ == form_urlencoded(encode_utf8(value@)),
{
    form_urlencode(value)
}

/// The usable URL of the last image, searching from the largest size down.
pub open spec fn last_image_url(images: Seq<Image>) -> Option<Seq<char>>
    decreases images.len(),
{
    if images.len() == 0 {
        None
    } else {
        match normalized_image_url(images.last().text@) {
            Some(u) => Some(u),
            None => last_image_url(images.drop_last()),
        }
    }
}

/// The usable URL of the first image.
pub open spec fn first_image_url(images: Seq<Image>) -> Option<Seq<char>>
    decreases images.len(),
{
    if images.len() == 0 {
        None
    } else {
        match normalized_image_url(images[0].text@) {
            Some(u) => Some(u),
            None => first_image_url(images.drop_first()),
        }
    }
}

/// An `extralarge` image with a non-blank URL.
pub open spec fn is_large_image(img: Image) -> bool {
    img.size@ == "extralarge"@ && trimmed(img.text@).len() > 0
}

/// The first `extralarge` image with a non-blank URL.
pub open spec fn first_large_image(images: Seq<Image>) -> Option<Image>
    decreases images.len(),
{
    if images.len() == 0 {
        None
    } else if is_large_image(images[0]) {
        Some(images[0])
    } else {
        first_large_image(images.drop_first())
    }
}

/// The image shown for a profile or a track: the first non-blank
/// `extralarge` image, else the first usable image.
pub open spec fn preferred_image_url(images: Seq<Image>) -> Option<Seq<char>> {
    match first_large_image(images) {
        Some(img) => match normalized_image_url(img.text@) {
            Some(u) => Some(u),
            None => first_image_url(images),
        },
        None => first_image_url(images),
    }
}

/// The usable URL of the last image (`images.iter().rev().find_map(..)`).
pub fn last_image_url_exec(images: &Vec<Image>) -> (res: Option<String>)
    ensures
        opt_text(res) == last_image_url(images@),
{
    let mut i = images.len();
    assert(images@.subrange(0, i as int) =~= images@);
    while i > 0
        invariant
            i <= images.len(),
            last_image_url(images@) == last_image_url(images@.subrange(0, i as int)),
        decreases i,
    {
        let ghost cur = images@.subrange(0, i as int);
        assert(cur.last() == images@[i - 1]);
        assert(cur.drop_last() =~= images@.subrange(0, i - 1));
        let u = normalize_image_url(images[i - 1].text.as_str());
        if u.is_some() {
            return u;
        }
        i = i - 1;
    }
    None
}

/// The usable URL of the first image.
pub fn first_image_url_exec(images: &Vec<Image>) -> (res: Option<String>)
    ensures
        opt_text(res) == first_image_url(images@),
{
    let mut i: usize = 0;
    assert(images@.subrange(0, images@.len() as int) =~= images@);
    while i < images.len()
        invariant
            i <= images.len(),
            first_image_url(images@) == first_image_url(
                images@.subrange(i as int, images@.len() as int),
            ),
        decreases images.len() - i,
    {
        let ghost cur = images@.subrange(i as int, images@.len() as int);
        assert(cur[0] == images@[i as int]);
        assert(cur.drop_first() =~= images@.subrange(i + 1, images@.len() as int));
        let u = normalize_image_url(images[i].text.as_str());
        if u.is_some() {
            return u;
        }
        i = i + 1;
    }
    None
}

/// The image shown for a profile or a track.
pub fn preferred_image_url_exec(images: &Vec<Image>) -> (res: Option<String>)
    ensures
        opt_text(res) == preferred_image_url(images@),
{
    let mut i: usize = 0;
    assert(images@.subrange(0, images@.len() as int) =~= images@);
    while i < images.len()
        invariant
            i <= images.len(),
            first_large_image(images@) == first_large_image(
                images@.subrange(i as int, images@.len() as int),
            ),
        decreases images.len() - i,
    {
        let ghost cur = images@.subrange(i as int, images@.len() as int);
        assert(cur[0] == images@[i as int]);
        assert(cur.drop_first() =~= images@.subrange(i + 1, images@.len() as int));
        let img = &images[i];
        if same_text(img.size.as_str(), "extralarge") && !is_blank(img.text.as_str()) {
            match normalize_image_url(img.text.as_str()) {
                Some(u) => return Some(u),
                None => return first_image_url_exec(images),
            }
        }
        i = i + 1;
    }
    first_image_url_exec(images)
}

// ---------------------------------------------------------------------------
// Charts
// ---------------------------------------------------------------------------
/// The chart periods that Last.fm offers.
pub open spec fn valid_period(period: Seq<char>) -> bool {
    period == "7day"@ || period == "1month"@ || period == "3month"@ || period == "6month"@ || period
        == "12month"@ || period == "overall"@
}

/// Accepts a chart period, or refuses it with `Invalid chart period`.
pub fn validate_period(period: &str) -> (res: Result<(), String>)
    ensures
        valid_period(period@) ==> res is Ok,
        !valid_period(period@) ==> (res matches Err(m) && m@ == "Invalid chart period"@),
        period@ == "7day"@ ==> res is Ok,
        period@ == "1month"@ ==> res is Ok,
        period@ == "3month"@ ==> res is Ok,
        period@ == "6month"@ ==> res is Ok,
        period@ == "12month"@ ==> res is Ok,
        period@ == "overall"@ ==> res is Ok,
{
    if same_text(period, "7day") || same_text(period, "1month") || same_text(period, "3month")
        || same_text(period, "6month") || same_text(period, "12month") || same_text(
        period,
        "overall",
    ) {
        Ok(())
    } else {
        Err(String::from_str("Invalid chart period"))
    }
}

/// What a chart ranks.
#[derive(Clone, Copy, Debug, PartialEq, Eq)]
pub enum ChartKind {
    Artists,
    Albums,
    Tracks,
}

/// The kind of chart asked for, or `Invalid chart type`.
pub fn chart_kind(kind: &str) -> (res: Result<ChartKind, String>)
    ensures
        kind@ == "artists"@ ==> res == Ok::<ChartKind, String>(ChartKind::Artists),
        kind@ == "albums"@ ==> res == Ok::<ChartKind, String>(ChartKind::Albums),
        kind@ == "tracks"@ ==> res == Ok::<ChartKind, String>(ChartKind::Tracks),
        kind@ != "artists"@ && kind@ != "albums"@ && kind@ != "tracks"@ ==> (res matches Err(m)
            && m@ == "Invalid chart type"@),
{
    proof {
        reveal_strlit("artists");
        reveal_strlit("albums");
        reveal_strlit("tracks");
        assert("albums"@.len() != "artists"@.len());
        assert("tracks"@.len() != "artists"@.len());
        assert("tracks"@[0] != "albums"@[0]);
    }
    if same_text(kind, "artists") {
        Ok(ChartKind::Artists)
    } else if same_text(kind, "albums") {
        Ok(ChartKind::Albums)
    } else if same_text(kind, "tracks") {
        Ok(ChartKind::Tracks)
    } else {
        Err(String::from_str("Invalid chart type"))
    }
}

/// The number of chart entries asked for, 50 unless given.
pub fn chart_limit(limit: Option<u32>) -> (res: u32)
    ensures
        res == match limit {
            Some(n) => n,
            None => 50u32,
        },
{
    match limit {
        Some(n) => n,
        None => 50,
    }
}

/// Whether an artist of a chart lacks an image, so that its artist page
/// must be fetched for one.
pub fn needs_artist_info(item: &TopArtist) -> (res: bool)
    ensures
        res == (last_image_url(item.image@) is None),
{
    last_image_url_exec(&item.image).is_none()
}

/// The Last.fm page of an artist by name.
pub open spec fn artist_page(name: Seq<char>) -> Seq<char> {
    "https://www.last.fm/music/"@ + form_urlencoded(encode_utf8(name))
}

/// A chart artist as shown: its image, else the image of its artist page;
/// its URL, else the artist page's URL, else the page named after it.
pub fn top_artist_item(item: TopArtist, info: Option<ArtistInfo>) -> (res: TopItemResponse)
    ensures
        res.name@ == item.name@,
        res.artist is None,
        opt_text(res.image_url) == match last_image_url(item.image@) {
            Some(u) => Some(u),
            None => match info {
                Some(a) => last_image_url(a.image@),
                None => None,
            },
        },
        res.url@ == if item.url@.len() == 0 {
            match info {
                Some(a) => a.url@,
                None => artist_page(item.name@),
            }
        } else {
            item.url@
        },
        res.playcount == count_or_zero(item.playcount@),
{
    let artwork = match last_image_url_exec(&item.image) {
        Some(u) => Some(u),
        None => match &info {
            Some(a) => last_image_url_exec(&a.image),
            None => None,
        },
    };
    let url = if item.url.as_str().is_empty() {
        match &info {
            Some(a) => a.url.clone(),
            None => {
                let encoded = encode_lastfm_path(item.name.as_str());
                concat("https://www.last.fm/music/", encoded.as_str())
            },
        }
    } else {
        item.url
    };
    let playcount = LastFmClient::count_from_total(item.playcount.as_str());
    TopItemResponse { name: item.name, artist: None, url, image_url: artwork, playcount }
}

/// A chart album as shown.
pub fn top_album_item(item: TopAlbum) -> (res: TopItemResponse)
    ensures
        res.name@ == item.name@,
        opt_text(res.artist) == Some(item.artist.name@),
        res.url@ == item.url@,
        opt_text(res.image_url) == last_image_url(item.image@),
        res.playcount == count_or_zero(item.playcount@),
{
    let image_url = last_image_url_exec(&item.image);
    let playcount = LastFmClient::count_from_total(item.playcount.as_str());
    TopItemResponse {
        name: item.name,
        artist: Some(item.artist.name),
        url: item.url,
        image_url,
        playcount,
    }
}

/// A chart track as shown.
pub fn top_track_item(item: TopTrack) -> (res: TopItemResponse)
    ensures
        res.name@ == item.name@,
        opt_text(res.artist) == Some(item.artist.name@),
        res.url@ == item.url@,
        opt_text(res.image_url) == last_image_url(item.image@),
        res.playcount == count_or_zero(item.playcount@),
{
    let image_url = last_image_url_exec(&item.image);
    let playcount = LastFmClient::count_from_total(item.playcount.as_str());
    TopItemResponse {
        name: item.name,
        artist: Some(item.artist.name),
        url: item.url,
        image_url,
        playcount,
    }
}

// ---------------------------------------------------------------------------
// Profile
// ---------------------------------------------------------------------------
/// The UNIX time a week before `now`.
pub fn week_before(now: i64) -> (res: i64)
    requires
        now >= i64::MIN + 604_800,
    ensures
        res == now - 604_800,
{
    now - 604_800
}

/// The profile shown for a user, with the counts fetched beside it; the
/// registration date is empty when it cannot be represented.
pub fn profile_response(user: User, loved_songs: u64, weekly_scrobbles: u64) -> (res:
    ProfileResponse)
    ensures
        res.username@ == user.name@,
        opt_text(res.realname) == opt_text(user.realname),
        res.url@ == user.url@,
        opt_text(res.image_url) == preferred_image_url(user.image@),
        opt_text(res.country) == opt_text(user.country),
        res.playcount == user.playcount,
        res.loved_songs == loved_songs,
        res.age == user.age,
        opt_text(res.gender) == opt_text(user.gender),
        res.subscriber == (user.subscriber != 0),
        res.registered_at@ == if timestamp_in_range(user.registered.unixtime as int) {
            rfc3339_utc(user.registered.unixtime as int)
        } else {
            Seq::<char>::empty()
        },
        res.weekly_scrobbles == weekly_scrobbles,
{
    let image_url = preferred_image_url_exec(&user.image);
    let registered_at = match rfc3339_from_timestamp(user.registered.unixtime) {
        Some(s) => s,
        None => String::new(),
    };
    ProfileResponse {
        username: user.name,
        realname: user.realname,
        url: user.url,
        image_url,
        country: user.country,
        playcount: user.playcount,
        loved_songs,
        age: user.age,
        gender: user.gender,
        subscriber: user.subscriber != 0,
        registered_at,
        weekly_scrobbles,
    }
}

// ---------------------------------------------------------------------------
// Recent tracks
// ---------------------------------------------------------------------------
/// Whether a track's attributes mark it as playing now (`nowplaying="true"`).
pub open spec fn marks_now_playing(attr: Option<TrackAttr>) -> bool {
    match attr {
        Some(a) => match a.nowplaying {
            Some(s) => s@ == "true"@,
            None => false,
        },
        None => false,
    }
}

/// Whether a track's attributes mark it as playing now.
pub fn is_now_playing(attr: &Option<TrackAttr>) -> (res: bool)
    ensures
        res == marks_now_playing(*attr),
{
    match attr {
        Some(a) => match &a.nowplaying {
            Some(s) => same_text(s.as_str(), "true"),
            None => false,
        },
        None => false,
    }
}

/// A track's scrobble time can be represented (tracks playing now have none).
pub open spec fn date_in_range(date: Option<TrackDate>) -> bool {
    match date {
        Some(d) => timestamp_in_range(d.uts as int),
        None => true,
    }
}

/// How a track of the API is shown.
pub open spec fn shows_track(r: TrackResponse, t: Track) -> bool {
    &&& r.name@ == t.name@
    &&& r.artist@ == t.artist.name@
    &&& r.artist_url@ == t.artist.url@
    &&& opt_text(r.album) == match t.album {
        Some(a) => Some(a.text@),
        None => None::<Seq<char>>,
    }
    &&& opt_text(r.album_url) == match t.album {
        Some(a) => Some(a.url@),
        None => None::<Seq<char>>,
    }
    &&& r.url@ == t.url@
    &&& opt_text(r.image_url) == preferred_image_url(t.image@)
    &&& r.now_playing == marks_now_playing(t.attr)
    &&& opt_text(r.scrobbled_at) == match t.date {
        Some(d) => Some(rfc3339_utc(d.uts as int)),
        None => None::<Seq<char>>,
    }
}

/// A track of the API as shown.
pub fn track_response(t: Track) -> (res: TrackResponse)
    requires
        date_in_range(t.date),
    ensures
        shows_track(res, t),
        res.name@ == t.name@,
        res.artist@ == t.artist.name@,
        res.artist_url@ == t.artist.url@,
        res.url@ == t.url@,
        t.album matches Some(a) ==> opt_text(res.album) == Some(a.text@) && opt_text(res.album_url)
            == Some(a.url@),
        t.album is None ==> res.album is None && res.album_url is None,
{
    let image_url = preferred_image_url_exec(&t.image);
    let now_playing = is_now_playing(&t.attr);
    let scrobbled_at = match &t.date {
        Some(d) => rfc3339_from_timestamp(d.uts),
        None => None,
    };
    let (album, album_url) = match &t.album {
        Some(a) => (Some(a.text.clone()), Some(a.url.clone())),
        None => (None, None),
    };
    TrackResponse {
        name: t.name,
        artist: t.artist.name,
        artist_url: t.artist.url,
        album,
        album_url,
        url: t.url,
        image_url,
        now_playing,
        scrobbled_at,
    }
}

/// The index of the first response marked as playing now.
pub open spec fn first_playing(rs: Seq<TrackResponse>) -> Option<int>
    decreases rs.len(),
{
    if rs.len() == 0 {
        None
    } else if rs[0].now_playing {
        Some(0)
    } else {
        match first_playing(rs.drop_first()) {
            Some(i) => Some(i + 1),
            None => None,
        }
    }
}

/// The track shown as playing now is the first of the list marked as
/// playing now; with none marked, no track is playing now.
pub proof fn law_first_playing(rs: Seq<TrackResponse>)
    ensures
        first_playing(rs) matches Some(i) ==> 0 <= i < rs.len() && rs[i].now_playing && forall|
            j: int,
        | 0 <= j < i ==> !(#[trigger] rs[j]).now_playing,
        first_playing(rs) is None ==> forall|j: int| 0 <= j < rs.len() ==> !(#[trigger] rs[j]).now_playing,
    decreases rs.len(),
{
    if rs.len() > 0 && !rs[0].now_playing {
        law_first_playing(rs.drop_first());
        assert forall|j: int| 1 <= j < rs.len() implies rs[j] == rs.drop_first()[j - 1] by {}
    }
}

/// The response listing `tracks`, with the first one playing now, if any,
/// repeated as the one playing now.
pub fn recent_tracks_response(tracks: Vec<TrackResponse>) -> (res: RecentTracksResponse)
    ensures
        res.tracks@ == tracks@,
        match first_playing(tracks@) {
            Some(i) => res.now_playing matches Some(np) && same_track_response(np, tracks@[i]),
            None => res.now_playing is None,
        },
{
    proof {
        law_first_playing(tracks@);
    }
    let mut i: usize = 0;
    while i < tracks.len() && !tracks[i].now_playing
        invariant
            i <= tracks.len(),
            forall|j: int| 0 <= j < i ==> !(#[trigger] tracks@[j]).now_playing,
        decreases tracks.len() - i,
    {
        i = i + 1;
    }
    let now_playing = if i < tracks.len() {
        Some(tracks[i].copy())
    } else {
        None
    };
    RecentTracksResponse { tracks, now_playing }
}

/// The recent tracks fetched from Last.fm as shown.
pub fn recent_tracks_from_api(tracks: Vec<Track>) -> (res: RecentTracksResponse)
    requires
        forall|i: int| 0 <= i < tracks@.len() ==> date_in_range(#[trigger] tracks@[i].date),
    ensures
        res.tracks@.len() == tracks@.len(),
        forall|i: int| 0 <= i < tracks@.len() ==> shows_track(#[trigger] res.tracks@[i], tracks@[i]),
        match first_playing(res.tracks@) {
            Some(i) => res.now_playing matches Some(np) && same_track_response(np, res.tracks@[i]),
            None => res.now_playing is None,
        },
{
    let mut shown: Vec<TrackResponse> = Vec::new();
    let mut rest = tracks;
    let ghost all = rest@;
    let mut i: usize = 0;
    let n = rest.len();
    // Taking the tracks out from the back keeps the moves cheap; they are
    // then put back in order.
    let mut reversed: Vec<Track> = Vec::new();
    while rest.len() > 0
        invariant
            rest@.len() + reversed@.len() == all.len(),
            forall|j: int| 0 <= j < rest@.len() ==> rest@[j] == all[j],
            forall|j: int| 0 <= j < reversed@.len() ==> reversed@[j] == all[all.len() - 1 - j],
        decreases rest.len(),
    {
        let t = rest.pop().unwrap();
        reversed.push(t);
    }
    while reversed.len() > 0
        invariant
            n == all.len(),
            shown@.len() + reversed@.len() == all.len(),
            i == shown@.len(),
            forall|j: int| 0 <= j < reversed@.len() ==> reversed@[j] == all[all.len() - 1 - j],
            forall|j: int| 0 <= j < shown@.len() ==> shows_track(#[trigger] shown@[j], all[j]),
            forall|j: int| 0 <= j < all.len() ==> date_in_range(#[trigger] all[j].date),
        decreases reversed.len(),
    {
        let t = reversed.pop().unwrap();
        assert(t == all[i as int]);
        let r = track_response(t);
        shown.push(r);
        i = i + 1;
    }
    recent_tracks_response(shown)
}

/// Whether the cached tracks are shown rather than fetched anew: only for
/// the first page, unless a refresh is asked for, and only when the cache
/// holds tracks.
pub fn serve_from_cache(refresh: Option<bool>, page: Option<u32>, cached_count: usize) -> (res:
    bool)
    ensures
        res == (!(match refresh {
            Some(b) => b,
            None => false,
        }) && match page {
            Some(p) => p,
            None => 1u32,
        } == 1 && cached_count > 0),
{
    let refresh = match refresh {
        Some(b) => b,
        None => false,
    };
    let page = match page {
        Some(p) => p,
        None => 1,
    };
    !refresh && page == 1 && cached_count > 0
}

/// The page size of the recent-tracks view, 20 unless given.
pub fn recent_tracks_limit(limit: Option<u32>) -> (res: u32)
    ensures
        res == match limit {
            Some(n) => n,
            None => 20u32,
        },
{
    match limit {
        Some(n) => n,
        None => 20,
    }
}

/// The page of the recent-tracks view, the first unless given.
pub fn recent_tracks_page(page: Option<u32>) -> (res: u32)
    ensures
        res == match page {
            Some(p) => p,
            None => 1u32,
        },
{
    match page {
        Some(p) => p,
        None => 1,
    }
}

/// How a cached track is shown (cached tracks keep no album link).
pub open spec fn shows_cached_track(r: TrackResponse, t: CachedTrack) -> bool {
    &&& r.name@ == t.track_name@
    &&& r.artist@ == t.artist_name@
    &&& r.artist_url@ == t.artist_url@
    &&& opt_text(r.album) == opt_text(t.album_name)
    &&& r.album_url is None
    &&& r.url@ == t.track_url@
    &&& opt_text(r.image_url) == opt_text(t.image_url)
    &&& r.now_playing == t.now_playing
    &&& opt_text(r.scrobbled_at) == opt_text(t.scrobbled_at)
}

/// A cached track as shown.
pub fn cached_track_response(t: CachedTrack) -> (res: TrackResponse)
    ensures
        shows_cached_track(res, t),
        res.name@ == t.track_name@,
        res.artist@ == t.artist_name@,
        res.artist_url@ == t.artist_url@,
        opt_text(res.album) == opt_text(t.album_name),
        res.album_url is None,
        res.url@ == t.track_url@,
        opt_text(res.image_url) == opt_text(t.image_url),
        res.now_playing == t.now_playing,
        opt_text(res.scrobbled_at) == opt_text(t.scrobbled_at),
{
    TrackResponse {
        name: t.track_name,
        artist: t.artist_name,
        artist_url: t.artist_url,
        album: t.album_name,
        album_url: None,
        url: t.track_url,
        image_url: t.image_url,
        now_playing: t.now_playing,
        scrobbled_at: t.scrobbled_at,
    }
}

/// The cached tracks and the cached track playing now, as shown.
pub fn recent_tracks_from_cache(cached: Vec<CachedTrack>, now_playing: Option<CachedTrack>) -> (res:
    RecentTracksResponse)
    ensures
        res.tracks@.len() == cached@.len(),
        forall|i: int| 0 <= i < cached@.len() ==> shows_cached_track(#[trigger] res.tracks@[i], cached@[i]),
        match now_playing {
            Some(t) => res.now_playing matches Some(r) && shows_cached_track(r, t),
            None => res.now_playing is None,
        },
{
    let mut rest = cached;
    let ghost all = rest@;
    let mut reversed: Vec<CachedTrack> = Vec::new();
    while rest.len() > 0
        invariant
            rest@.len() + reversed@.len() == all.len(),
            forall|j: int| 0 <= j < rest@.len() ==> rest@[j] == all[j],
            forall|j: int| 0 <= j < reversed@.len() ==> reversed@[j] == all[all.len() - 1 - j],
        decreases rest.len(),
    {
        let t = rest.pop().unwrap();
        reversed.push(t);
    }
    let mut shown: Vec<TrackResponse> = Vec::new();
    while reversed.len() > 0
        invariant
            shown@.len() + reversed@.len() == all.len(),
            forall|j: int| 0 <= j < reversed@.len() ==> reversed@[j] == all[all.len() - 1 - j],
            forall|j: int| 0 <= j < shown@.len() ==> shows_cached_track(#[trigger] shown@[j], all[j]),
        decreases reversed.len(),
    {
        let t = reversed.pop().unwrap();
        assert(t == all[shown@.len() as int]);
        shown.push(cached_track_response(t));
    }
    let now = match now_playing {
        Some(t) => Some(cached_track_response(t)),
        None => None,
    };
    RecentTracksResponse { tracks: shown, now_playing: now }
}

// ---------------------------------------------------------------------------
// What the shown data is made of
// ---------------------------------------------------------------------------
/// A shown API track links to its artist with the artist's URL and to itself
/// with its own URL, and names its artist and album as the API does.
pub proof fn law_shown_track_fields(r: TrackResponse, t: Track)
    requires
        shows_track(r, t),
    ensures
        r.name@ == t.name@,
        r.artist@ == t.artist.name@,
        r.artist_url@ == t.artist.url@,
        r.url@ == t.url@,
        t.album matches Some(a) ==> opt_text(r.album) == Some(a.text@) && opt_text(r.album_url)
            == Some(a.url@),
        t.album is None ==> r.album is None && r.album_url is None,
        r.now_playing <==> (t.attr matches Some(a) && a.nowplaying matches Some(n) && n@
            == "true"@),
        t.date matches Some(d) ==> opt_text(r.scrobbled_at) == Some(rfc3339_utc(d.uts as int)),
        t.date is None ==> r.scrobbled_at is None,
        opt_text(r.image_url) == preferred_image_url(t.image@),
{
}

/// A track shown from the cache carries every field of the cached record,
/// its album name included, and no album link.
pub proof fn law_shown_cached_track_fields(r: TrackResponse, t: CachedTrack)
    requires
        shows_cached_track(r, t),
    ensures
        r.name@ == t.track_name@,
        r.artist@ == t.artist_name@,
        r.artist_url@ == t.artist_url@,
        opt_text(r.album) == opt_text(t.album_name),
        r.album_url is None,
        r.url@ == t.track_url@,
        opt_text(r.image_url) == opt_text(t.image_url),
        r.now_playing == t.now_playing,
        opt_text(r.scrobbled_at) == opt_text(t.scrobbled_at),
{
}

/// An image URL is usable exactly when it is not blank.
proof fn lemma_usable(v: Seq<char>)
    ensures
        normalized_image_url(v) is Some <==> trimmed(v).len() > 0,
{
}

/// A chart image is the normalised URL of the last image whose URL is not
/// blank, whatever the sizes.
pub proof fn law_last_image_url(images: Seq<Image>, k: int)
    requires
        0 <= k < images.len(),
        trimmed(images[k].text@).len() > 0,
        forall|j: int| k < j < images.len() ==> trimmed((#[trigger] images[j]).text@).len() == 0,
    ensures
        last_image_url(images) == normalized_image_url(images[k].text@),
        normalized_image_url(images[k].text@) is Some,
    decreases images.len(),
{
    lemma_usable(images[k].text@);
    if k < images.len() - 1 {
        let d = images.drop_last();
        lemma_usable(images.last().text@);
        assert(trimmed(images[images.len() - 1].text@).len() == 0);
        assert forall|j: int| k < j < d.len() implies trimmed((#[trigger] d[j]).text@).len() == 0 by {
            assert(d[j] == images[j]);
        }
        law_last_image_url(d, k);
        assert(d[k] == images[k]);
    }
}

/// A chart entry whose images all have blank URLs shows no image.
pub proof fn law_last_image_url_none(images: Seq<Image>)
    requires
        forall|j: int| 0 <= j < images.len() ==> trimmed((#[trigger] images[j]).text@).len() == 0,
    ensures
        last_image_url(images) is None,
    decreases images.len(),
{
    if images.len() > 0 {
        lemma_usable(images.last().text@);
        assert(trimmed(images[images.len() - 1].text@).len() == 0);
        let d = images.drop_last();
        assert forall|j: int| 0 <= j < d.len() implies trimmed((#[trigger] d[j]).text@).len() == 0 by {
            assert(d[j] == images[j]);
        }
        law_last_image_url_none(d);
    }
}

proof fn lemma_first_image_url(images: Seq<Image>, k: int)
    requires
        0 <= k < images.len(),
        trimmed(images[k].text@).len() > 0,
        forall|j: int| 0 <= j < k ==> trimmed((#[trigger] images[j]).text@).len() == 0,
    ensures
        first_image_url(images) == normalized_image_url(images[k].text@),
    decreases k,
{
    lemma_usable(images[k].text@);
    if k > 0 {
        lemma_usable(images[0].text@);
        assert(trimmed(images[0].text@).len() == 0);
        let d = images.drop_first();
        assert forall|j: int| 0 <= j < k - 1 implies trimmed((#[trigger] d[j]).text@).len() == 0 by {
            assert(d[j] == images[j + 1]);
        }
        lemma_first_image_url(d, k - 1);
        assert(d[k - 1] == images[k]);
    }
}

proof fn lemma_first_image_url_none(images: Seq<Image>)
    requires
        forall|j: int| 0 <= j < images.len() ==> trimmed((#[trigger] images[j]).text@).len() == 0,
    ensures
        first_image_url(images) is None,
    decreases images.len(),
{
    if images.len() > 0 {
        lemma_usable(images[0].text@);
        assert(trimmed(images[0].text@).len() == 0);
        let d = images.drop_first();
        assert forall|j: int| 0 <= j < d.len() implies trimmed((#[trigger] d[j]).text@).len() == 0 by {
            assert(d[j] == images[j + 1]);
        }
        lemma_first_image_url_none(d);
    }
}

proof fn lemma_no_large_image(images: Seq<Image>)
    requires
        forall|j: int| 0 <= j < images.len() ==> !((#[trigger] images[j]).size@ == "extralarge"@ && trimmed(images[j].text@).len() > 0),
    ensures
        first_large_image(images) is None,
    decreases images.len(),
{
    if images.len() > 0 {
        assert(!(images[0].size@ == "extralarge"@ && trimmed(images[0].text@).len() > 0));
        let d = images.drop_first();
        assert forall|j: int| 0 <= j < d.len() implies !((#[trigger] d[j]).size@ == "extralarge"@ && trimmed(d[j].text@).len() > 0) by {
            assert(d[j] == images[j + 1]);
        }
        lemma_no_large_image(d);
    }
}

proof fn lemma_first_large_image(images: Seq<Image>, k: int)
    requires
        0 <= k < images.len(),
        (images[k].size@ == "extralarge"@ && trimmed(images[k].text@).len() > 0),
        forall|j: int| 0 <= j < k ==> !((#[trigger] images[j]).size@ == "extralarge"@ && trimmed(images[j].text@).len() > 0),
    ensures
        first_large_image(images) == Some(images[k]),
    decreases k,
{
    if k > 0 {
        assert(!(images[0].size@ == "extralarge"@ && trimmed(images[0].text@).len() > 0));
        let d = images.drop_first();
        assert forall|j: int| 0 <= j < k - 1 implies !((#[trigger] d[j]).size@ == "extralarge"@ && trimmed(d[j].text@).len() > 0) by {
            assert(d[j] == images[j + 1]);
        }
        lemma_first_large_image(d, k - 1);
        assert(d[k - 1] == images[k]);
    }
}

/// The image of a profile or a track is the first `extralarge` image with a
/// URL that is not blank, normalised, whatever comes before it.
pub proof fn law_preferred_image_extralarge(images: Seq<Image>, k: int)
    requires
        0 <= k < images.len(),
        images[k].size@ == "extralarge"@,
        trimmed(images[k].text@).len() > 0,
        forall|j: int| 0 <= j < k ==> !((#[trigger] images[j]).size@ == "extralarge"@ && trimmed(images[j].text@).len() > 0),
    ensures
        preferred_image_url(images) == normalized_image_url(images[k].text@),
        normalized_image_url(images[k].text@) is Some,
{
    lemma_usable(images[k].text@);
    lemma_first_large_image(images, k);
}

/// Without an `extralarge` image with a URL, the image of a profile or a
/// track is the first image whose URL is not blank, normalised.
pub proof fn law_preferred_image_fallback(images: Seq<Image>, k: int)
    requires
        forall|j: int| 0 <= j < images.len() ==> !((#[trigger] images[j]).size@ == "extralarge"@ && trimmed(images[j].text@).len() > 0),
        0 <= k < images.len(),
        trimmed(images[k].text@).len() > 0,
        forall|j: int| 0 <= j < k ==> trimmed((#[trigger] images[j]).text@).len() == 0,
    ensures
        preferred_image_url(images) == normalized_image_url(images[k].text@),
        normalized_image_url(images[k].text@) is Some,
{
    lemma_usable(images[k].text@);
    lemma_no_large_image(images);
    lemma_first_image_url(images, k);
}

/// Images whose URLs are all blank give no image.
pub proof fn law_preferred_image_none(images: Seq<Image>)
    requires
        forall|j: int| 0 <= j < images.len() ==> trimmed((#[trigger] images[j]).text@).len() == 0,
    ensures
        preferred_image_url(images) is None,
{
    assert forall|j: int| 0 <= j < images.len() implies !((#[trigger] images[j]).size@ == "extralarge"@ && trimmed(images[j].text@).len() > 0) by {
        assert(trimmed(images[j].text@).len() == 0);
    }
    lemma_no_large_image(images);
    lemma_first_image_url_none(images);
}

/// Each of the six Last.fm chart periods is a valid period.
pub proof fn law_chart_periods_valid()
    ensures
        valid_period("7day"@),
        valid_period("1month"@),
        valid_period("3month"@),
        valid_period("6month"@),
        valid_period("12month"@),
        valid_period("overall"@),
{
}

} // verus!
