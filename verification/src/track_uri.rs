use crate::model::TrackRef;
use crate::planner::unavailable_message;
use librespot_core::SpotifyUri;
use vstd::prelude::*;

verus! {

/// `librespot_core::SpotifyUri`, carried opaquely to the player.
#[verifier::external_type_specification]
#[verifier::external_body]
pub struct ExSpotifyUri(SpotifyUri);

/// What `SpotifyUri::from_uri` makes of the text `uri`: the URI it parses
/// with whether that URI names a track, or the message of the error it
/// refuses the text with.
pub uninterp spec fn spotify_uri_reading(uri: Seq<char>) -> Result<(SpotifyUri, bool), Seq<char>>;

/// `SpotifyUri::from_uri` on `uri`, with whether the parsed URI is a track;
/// a refusal is handed back as the error's message. The contract names the
/// outcome, parsed value included, and claims nothing more of it: the parse
/// depends on the text alone.
#[verifier::external_body]
fn read_spotify_uri(uri: &str) -> (reading: Result<(SpotifyUri, bool), String>)
    ensures
        match reading {
            Ok(parsed) => spotify_uri_reading(uri@) == Ok::<(SpotifyUri, bool), Seq<char>>(parsed),
            Err(message) => spotify_uri_reading(uri@) == Err::<(SpotifyUri, bool), Seq<char>>(
                message@,
            ),
        },
{
    match SpotifyUri::from_uri(uri) {
        Ok(parsed) => {
            let track = match &parsed {
                SpotifyUri::Track { .. } => true,
                _ => false,
            };
            Ok((parsed, track))
        },
        Err(error) => Err(error.to_string()),
    }
}

/// The characters of a parse outcome.
pub open spec fn reading_view(reading: Result<bool, String>) -> Result<bool, Seq<char>> {
    match reading {
        Ok(track) => Ok(track),
        Err(message) => Err(message@),
    }
}

/// Why a queue row with URI `uri`, parsed as `reading`, is refused: the text
/// is no Spotify URI, or it names something other than a track.
pub open spec fn uri_fault(uri: Seq<char>, reading: Result<bool, Seq<char>>) -> Option<Seq<char>> {
    match reading {
        Err(error) => Some("invalid Spotify track URI '"@ + uri + "': "@ + error),
        Ok(false) => Some("queue item is not a Spotify track URI: "@ + uri),
        Ok(true) => None,
    }
}

/// Whether a parse outcome names a track, or the refusal's message.
pub open spec fn track_reading(reading: Result<(SpotifyUri, bool), Seq<char>>) -> Result<bool, Seq<char>> {
    match reading {
        Ok((_, track)) => Ok(track),
        Err(message) => Err(message),
    }
}

/// The URI the player is handed for a row whose URI text is `uri`, when it
/// parses.
pub open spec fn parsed_uri(uri: Seq<char>) -> SpotifyUri {
    spotify_uri_reading(uri)->Ok_0.0
}

/// Why `track`'s URI is refused, if it is.
pub open spec fn row_uri_fault(track: TrackRef) -> Option<Seq<char>> {
    uri_fault(track.uri@, track_reading(spotify_uri_reading(track.uri@)))
}

/// Answers, for a row whose URI `uri` was parsed as `reading`, the message
/// it is refused with, or `None` when it names a track.
pub fn track_uri_fault(uri: &str, reading: &Result<bool, String>) -> (fault: Option<String>)
    ensures
        match fault {
            Some(message) => uri_fault(uri@, reading_view(*reading)) == Some(message@),
            None => uri_fault(uri@, reading_view(*reading)) is None,
        },
{
    match reading {
        Err(error) => {
            let mut message = "invalid Spotify track URI '".to_owned();
            message.append(uri);
            message.append("': ");
            message.append(error.as_str());
            proof {
                reveal_strlit("invalid Spotify track URI '");
                reveal_strlit("': ");
            }
            Some(message)
        },
        Ok(false) => {
            let mut message = "queue item is not a Spotify track URI: ".to_owned();
            message.append(uri);
            proof {
                reveal_strlit("queue item is not a Spotify track URI: ");
            }
            Some(message)
        },
        Ok(true) => None,
    }
}

/// Parses `track`'s URI for the player, refusing anything but a track.
pub fn parse_track_uri(track: &TrackRef) -> (parsed: Result<SpotifyUri, String>)
    ensures
        match parsed {
            Ok(uri) => row_uri_fault(*track) is None && uri == parsed_uri(track.uri@),
            Err(message) => row_uri_fault(*track) == Some(message@),
        },
{
    let (uri, reading) = match read_spotify_uri(track.uri.as_str()) {
        Ok((uri, is_track)) => (Some(uri), Ok(is_track)),
        Err(error) => (None, Err(error)),
    };
    match track_uri_fault(track.uri.as_str(), &reading) {
        Some(message) => Err(message),
        None => Ok(uri.unwrap()),
    }
}

/// Why `track` cannot be handed to the player: permanently unavailable, or
/// a URI that names no track.
pub open spec fn play_fault(track: TrackRef) -> Option<Seq<char>> {
    if track.unavailable {
        Some(unavailable_message(track))
    } else {
        row_uri_fault(track)
    }
}

/// The URI the player loads for `track`; a row already known to be
/// permanently unavailable is refused with its reason before the URI is
/// looked at.
pub fn playable_track_uri(track: &TrackRef) -> (parsed: Result<SpotifyUri, String>)
    ensures
        match parsed {
            Ok(uri) => play_fault(*track) is None && uri == parsed_uri(track.uri@),
            Err(message) => play_fault(*track) == Some(message@),
        },
{
    match crate::planner::playable_track(track) {
        Err(message) => Err(message),
        Ok(()) => parse_track_uri(track),
    }
}

/// Whether every row of `tracks` before `end` has a track URI.
pub open spec fn uris_valid_before(tracks: Seq<TrackRef>, end: int) -> bool {
    forall|k: int| 0 <= k < end ==> #[trigger] row_uri_fault(tracks[k]) is None
}

/// Checks that every row of `tracks` names a track, refusing with the first
/// row that does not.
pub fn check_track_uris(tracks: &Vec<TrackRef>) -> (checked: Result<(), String>)
    ensures
        match checked {
            Ok(()) => uris_valid_before(tracks@, tracks@.len() as int),
            Err(message) => exists|k: int|
                0 <= k < tracks@.len() && uris_valid_before(tracks@, k)
                    && #[trigger] row_uri_fault(tracks@[k]) == Some(message@),
        },
{
    let mut i: usize = 0;
    while i < tracks.len()
        invariant
            i <= tracks@.len(),
            uris_valid_before(tracks@, i as int),
        decreases tracks.len() - i,
    {
        match parse_track_uri(&tracks[i]) {
            Ok(_) => {},
            Err(message) => {
                assert(row_uri_fault(tracks@[i as int]) == Some(message@));
                return Err(message);
            },
        }
        i = i + 1;
    }
    Ok(())
}

} // verus!
