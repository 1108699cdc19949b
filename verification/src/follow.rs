use crate::model::ArtistRef;
use crate::text::{trim, trimmed};
use vstd::prelude::*;

verus! {

/// One entry of the followed-profiles collection as the service returns
/// it; a missing field reads as empty.
#[derive(Debug)]
pub struct FollowedProfile {
    pub uri: String,
    pub name: String,
    pub image_url: String,
}

/// The prefix of an artist's URI.
pub open spec fn artist_prefix() -> Seq<char> {
    "spotify:artist:"@
}

/// The artist an entry stands for: only `spotify:artist:<id>` entries with a
/// non-blank id are artists. The id is the trimmed rest of the URI, and an
/// empty picture is no picture.
pub open spec fn artist_of(uri: Seq<char>, name: Seq<char>, image_url: Seq<char>) -> Option<(Seq<char>, Seq<char>, Seq<char>, Option<Seq<char>>)> {
    if uri.len() >= artist_prefix().len() && uri.subrange(0, artist_prefix().len() as int)
        == artist_prefix() && trimmed(uri.subrange(artist_prefix().len() as int, uri.len() as int)).len()
        > 0 {
        Some(
            (
                trimmed(uri.subrange(artist_prefix().len() as int, uri.len() as int)),
                uri,
                name,
                if image_url.len() == 0 {
                    None
                } else {
                    Some(image_url)
                },
            ),
        )
    } else {
        None
    }
}

/// The value of an artist row.
pub open spec fn artist_view(artist: ArtistRef) -> (Seq<char>, Seq<char>, Seq<char>, Option<Seq<char>>) {
    (
        artist.id@,
        artist.uri@,
        artist.name@,
        match artist.portrait_url {
            Some(url) => Some(url@),
            None => None,
        },
    )
}

/// The artists of the first `n` profiles, in order.
pub open spec fn artists_of(profiles: Seq<FollowedProfile>, n: int) -> Seq<(Seq<char>, Seq<char>, Seq<char>, Option<Seq<char>>)>
    decreases n,
{
    if n <= 0 {
        Seq::empty()
    } else {
        let before = artists_of(profiles, n - 1);
        match artist_of(profiles[n - 1].uri@, profiles[n - 1].name@, profiles[n - 1].image_url@) {
            Some(artist) => before.push(artist),
            None => before,
        }
    }
}

/// Whether `text` starts with the artist prefix.
fn has_artist_prefix(text: &str) -> (found: bool)
    ensures
        found == (text@.len() >= artist_prefix().len() && text@.subrange(
            0,
            artist_prefix().len() as int,
        ) == artist_prefix()),
{
    let prefix = "spotify:artist:";
    proof {
        reveal_strlit("spotify:artist:");
    }
    let n = prefix.unicode_len();
    if text.unicode_len() < n {
        return false;
    }
    let mut k: usize = 0;
    while k < n
        invariant
            n == prefix@.len(),
            prefix@ == artist_prefix(),
            n <= text@.len(),
            k <= n,
            forall|m: int| 0 <= m < k ==> text@[m] == prefix@[m],
        decreases n - k,
    {
        if text.get_char(k) != prefix.get_char(k) {
            assert(text@.subrange(0, n as int)[k as int] != prefix@[k as int]);
            return false;
        }
        k = k + 1;
    }
    assert(text@.subrange(0, n as int) =~= prefix@);
    true
}

/// The artists a followed-profiles collection holds, in the service's
/// order: entries that are not artists, or name no id, are dropped rather
/// than rendered as tiles that open nothing.
pub fn artists_from_profiles(profiles: &Vec<FollowedProfile>) -> (artists: Vec<ArtistRef>)
    ensures
        artists@.map_values(|artist: ArtistRef| artist_view(artist)) == artists_of(
            profiles@,
            profiles@.len() as int,
        ),
{
    let mut artists: Vec<ArtistRef> = Vec::new();
    let mut k: usize = 0;
    while k < profiles.len()
        invariant
            k <= profiles@.len(),
            artists@.map_values(|artist: ArtistRef| artist_view(artist)) == artists_of(
                profiles@,
                k as int,
            ),
        decreases profiles.len() - k,
    {
        let profile = &profiles[k];
        let ghost before = artists@;
        let uri = profile.uri.as_str();
        proof {
            reveal_strlit("spotify:artist:");
            assert(artist_prefix().len() == 15);
        }
        if has_artist_prefix(uri) {
            let n = uri.unicode_len();
            let rest = uri.substring_char(15, n);
            let id = trim(rest);
            if id.unicode_len() > 0 {
                let portrait_url = if profile.image_url.as_str().unicode_len() == 0 {
                    None
                } else {
                    Some(profile.image_url.clone())
                };
                let artist = ArtistRef {
                    id: id.to_owned(),
                    uri: profile.uri.clone(),
                    name: profile.name.clone(),
                    portrait_url,
                };
                artists.push(artist);
                proof {
                    assert(artists@.map_values(|artist: ArtistRef| artist_view(artist)) =~= before.map_values(
                        |artist: ArtistRef| artist_view(artist),
                    ).push(artist_view(artist)));
                }
            }
        }
        k = k + 1;
    }
    artists
}

} // verus!
