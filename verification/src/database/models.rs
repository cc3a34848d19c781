//! Records of the local cache, and the values derived from API data when a
//! user or a track is stored.

use vstd::prelude::*;
use crate::lastfm::models::Image;
use crate::lastfm::auth::same_text;

verus! {

/// A cached user profile.
#[derive(Clone, Debug, PartialEq, Eq)]
pub struct CachedUser {
    pub id: i64,
    pub username: String,
    pub realname: Option<String>,
    pub url: String,
    pub image_url: Option<String>,
    pub country: Option<String>,
    pub age: Option<i32>,
    pub gender: Option<String>,
    pub subscriber: i32,
    pub playcount: i64,
    pub playlists: i32,
    pub registered_unixtime: i64,
    /// When the record was last written, in RFC 3339.
    pub updated_at: String,
}

/// A cached track of a user's recent tracks.
#[derive(Clone, Debug, PartialEq, Eq)]
pub struct CachedTrack {
    pub id: i64,
    pub username: String,
    pub track_name: String,
    pub artist_name: String,
    pub artist_url: String,
    pub album_name: Option<String>,
    pub track_url: String,
    pub image_url: Option<String>,
    pub now_playing: bool,
    /// When the track was scrobbled, in RFC 3339.
    pub scrobbled_at: Option<String>,
    /// When the record was written, in RFC 3339.
    pub cached_at: String,
}

/// The first `extralarge` image.
pub open spec fn first_extralarge(images: Seq<Image>) -> Option<Image>
    decreases images.len(),
{
    if images.len() == 0 {
        None
    } else if images[0].size@ == "extralarge"@ {
        Some(images[0])
    } else {
        first_extralarge(images.drop_first())
    }
}

/// The image URL stored in the cache: that of the first `extralarge`
/// image, else that of the first image, as the API sent it.
pub open spec fn stored_image(images: Seq<Image>) -> Option<Seq<char>> {
    match first_extralarge(images) {
        Some(img) => Some(img.text@),
        None => if images.len() > 0 {
            Some(images[0].text@)
        } else {
            None
        },
    }
}

/// The image URL stored in the cache for a user or a track.
pub fn stored_image_url(images: &Vec<Image>) -> (res: Option<String>)
    ensures
        match res {
            Some(s) => stored_image(images@) == Some(s@),
            None => stored_image(images@) is None,
        },
{
    let mut i: usize = 0;
    assert(images@.subrange(0, images@.len() as int) =~= images@);
    while i < images.len()
        invariant
            i <= images.len(),
            first_extralarge(images@) == first_extralarge(
                images@.subrange(i as int, images@.len() as int),
            ),
        decreases images.len() - i,
    {
        let ghost cur = images@.subrange(i as int, images@.len() as int);
        assert(cur[0] == images@[i as int]);
        assert(cur.drop_first() =~= images@.subrange(i + 1, images@.len() as int));
        if same_text(images[i].size.as_str(), "extralarge") {
            return Some(images[i].text.clone());
        }
        i = i + 1;
    }
    if images.len() > 0 {
        Some(images[0].text.clone())
    } else {
        None
    }
}

} // verus!
