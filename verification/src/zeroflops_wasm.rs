pub mod api;
pub mod app;
pub mod bootstrap;
pub mod dataframe;
pub mod edit;
pub mod home;
pub mod integrations;
pub mod list_items;

use crate::zeroflops::{Id, List, Spotify, User};
use vstd::prelude::*;

verus! {

/// The pattern of a Spotify playlist address; its group is the playlist's id.
pub open spec fn playlist_pattern() -> Seq<char> {
    "https://open.spotify.com/playlist/([[:alnum:]]*)"@
}

/// The pattern of a Spotify album address; its group is the album's id.
pub open spec fn album_pattern() -> Seq<char> {
    "https://open.spotify.com/album/([[:alnum:]]*)"@
}

/// The pattern of a Spotify track address; its group is the track's id.
pub open spec fn track_pattern() -> Seq<char> {
    "https://open.spotify.com/track/([[:alnum:]]*)"@
}

/// The pattern of a setlist.fm address; its group is the setlist's id.
pub open spec fn setlist_pattern() -> Seq<char> {
    "https://www.setlist.fm/setlist/.*-([[:alnum:]]*).html"@
}

/// The patterns that sources are read with: each compiles, and its one group takes
/// part in every match.
pub open spec fn is_source_pattern(p: Seq<char>) -> bool {
    p == playlist_pattern() || p == album_pattern() || p == track_pattern() || p == setlist_pattern()
}

/// What the `regex` crate finds for `pattern` in `haystack`: the text of the first
/// group of the leftmost-first match, if there is a match.
pub uninterp spec fn regex_first_capture(pattern: Seq<char>, haystack: Seq<char>) -> Option<Seq<char>>;

/// `regex::Regex::new(pattern)`, then `captures_iter(haystack).next()` and its group
/// 1. Trusted to give what `regex_first_capture` names; the patterns allowed here
/// compile, and their group takes part in every match, so nothing panics.
#[verifier::external_body]
fn first_capture(pattern: &str, haystack: &str) -> (r: Option<String>)
    requires
        is_source_pattern(pattern@),
    ensures
        match r {
            Some(c) => regex_first_capture(pattern@, haystack@) == Some(c@),
            None => regex_first_capture(pattern@, haystack@) is None,
        },
{
    let re = regex::Regex::new(pattern).unwrap();
    let first = re.captures_iter(haystack).next();
    match first {
        Some(caps) => Some(caps[1].to_owned()),
        None => None,
    }
}

/// The kinds of Spotify source.
#[derive(PartialEq, Eq, Structural)]
pub enum SpotifyKind {
    Playlist,
    Album,
    Track,
}

/// The kind of a Spotify source.
pub open spec fn spotify_kind(s: Spotify) -> SpotifyKind {
    match s {
        Spotify::Playlist(_) => SpotifyKind::Playlist,
        Spotify::Album(_) => SpotifyKind::Album,
        Spotify::Track(_) => SpotifyKind::Track,
    }
}

/// The id of a Spotify source.
pub open spec fn spotify_id(s: Spotify) -> Id {
    match s {
        Spotify::Playlist(id) => id,
        Spotify::Album(id) => id,
        Spotify::Track(id) => id,
    }
}

/// The Spotify source that an address names: a playlist, else an album, else a
/// track, with the id that the pattern's group took.
pub open spec fn spotify_parse(input: Seq<char>) -> Option<(SpotifyKind, Seq<char>)> {
    match regex_first_capture(playlist_pattern(), input) {
        Some(c) => Some((SpotifyKind::Playlist, c)),
        None => match regex_first_capture(album_pattern(), input) {
            Some(c) => Some((SpotifyKind::Album, c)),
            None => match regex_first_capture(track_pattern(), input) {
                Some(c) => Some((SpotifyKind::Track, c)),
                None => None,
            },
        },
    }
}

/// Whether `s` is the Spotify source that `input` names, keeping `input` as its text.
pub open spec fn is_spotify_source_of(s: Spotify, input: Seq<char>) -> bool {
    spotify_parse(input) matches Some((k, c)) && spotify_kind(s) == k && spotify_id(s).id@ == c
        && spotify_id(s).raw_id@ == input
}

/// The Spotify source named by `input`, from what the three patterns found in it (in
/// the order playlist, album, track).
pub fn spotify_source_from_captures(
    input: String,
    playlist: Option<String>,
    album: Option<String>,
    track: Option<String>,
) -> (r: Option<Spotify>)
    ensures
        match (playlist, album, track) {
            (Some(c), _, _) => r matches Some(Spotify::Playlist(id)) && id.id == c && id.raw_id == input,
            (None, Some(c), _) => r matches Some(Spotify::Album(id)) && id.id == c && id.raw_id == input,
            (None, None, Some(c)) => r matches Some(Spotify::Track(id)) && id.id == c && id.raw_id == input,
            (None, None, None) => r is None,
        },
{
    match (playlist, album, track) {
        (Some(id), _, _) => Some(Spotify::Playlist(Id { id, raw_id: input })),
        (None, Some(id), _) => Some(Spotify::Album(Id { id, raw_id: input })),
        (None, None, Some(id)) => Some(Spotify::Track(Id { id, raw_id: input })),
        (None, None, None) => None,
    }
}

/// The Spotify playlist, album or track whose address `input` holds.
pub fn parse_spotify_source(input: String) -> (r: Option<Spotify>)
    ensures
        match r {
            Some(s) => is_spotify_source_of(s, input@),
            None => spotify_parse(input@) is None,
        },
{
    let playlist = first_capture("https://open.spotify.com/playlist/([[:alnum:]]*)", input.as_str());
    if playlist.is_some() {
        return spotify_source_from_captures(input, playlist, None, None);
    }
    let album = first_capture("https://open.spotify.com/album/([[:alnum:]]*)", input.as_str());
    if album.is_some() {
        return spotify_source_from_captures(input, None, album, None);
    }
    let track = first_capture("https://open.spotify.com/track/([[:alnum:]]*)", input.as_str());
    spotify_source_from_captures(input, None, None, track)
}

/// The setlist whose address `input` holds, from what the setlist pattern found in it.
pub fn setlist_source_from_capture(input: String, capture: Option<String>) -> (r: Option<Id>)
    ensures
        match capture {
            Some(c) => r matches Some(id) && id.id == c && id.raw_id == input,
            None => r is None,
        },
{
    match capture {
        Some(id) => Some(Id { id, raw_id: input }),
        None => None,
    }
}

/// The setlist.fm setlist whose address `input` holds, keeping `input` as its text.
pub fn parse_setlist_source(input: String) -> (r: Option<Id>)
    ensures
        match r {
            Some(id) => regex_first_capture(setlist_pattern(), input@) == Some(id.id@) && id.raw_id@ == input@,
            None => regex_first_capture(setlist_pattern(), input@) is None,
        },
{
    let capture = first_capture("https://www.setlist.fm/setlist/.*-([[:alnum:]]*).html", input.as_str());
    setlist_source_from_capture(input, capture)
}

/// Whether the list belongs to the user who is signed in, or, with nobody signed in,
/// is a demo list.
pub open spec fn is_user_list(list: List, user: Option<User>) -> bool {
    (user matches Some(u) && u.user_id@ == list.user_id@) || (user is None && list.user_id@ == "demo"@)
}

/// Whether the list may be edited by who is using the page (see `is_user_list`).
pub fn user_list(list: &List, user: &Option<User>) -> (r: bool)
    ensures
        r == is_user_list(*list, *user),
{
    match user {
        Some(u) => crate::text::str_eq(list.user_id.as_str(), u.user_id.as_str()),
        None => crate::text::str_eq(list.user_id.as_str(), "demo"),
    }
}

/// The source name under which the Spotify integration imports a kind of collection.
pub open spec fn import_source_name(k: SpotifyKind) -> Seq<char> {
    match k {
        SpotifyKind::Playlist => "spotify:playlist"@,
        SpotifyKind::Album => "spotify:album"@,
        SpotifyKind::Track => "spotify:track"@,
    }
}

/// What the import field asks to import: the source name of the playlist, album or
/// track that the address names, and its id; nothing for an address that names none.
pub fn import_request(input: String) -> (r: Option<(&'static str, Id)>)
    ensures
        match r {
            Some((source, id)) => spotify_parse(input@) matches Some((k, c)) && source@ == import_source_name(k)
                && id.id@ == c && id.raw_id@ == input@,
            None => spotify_parse(input@) is None,
        },
{
    match parse_spotify_source(input) {
        Some(Spotify::Playlist(id)) => Some(("spotify:playlist", id)),
        Some(Spotify::Album(id)) => Some(("spotify:album", id)),
        Some(Spotify::Track(id)) => Some(("spotify:track", id)),
        None => None,
    }
}

/// What importing a recent track asks for: the track that the address names, if it
/// names a track.
pub fn import_track_request(input: String) -> (r: Option<(&'static str, Id)>)
    ensures
        match r {
            Some((source, id)) => spotify_parse(input@) matches Some((SpotifyKind::Track, c)) && source@ == "spotify:track"@
                && id.id@ == c && id.raw_id@ == input@,
            None => !(spotify_parse(input@) matches Some((SpotifyKind::Track, _))),
        },
{
    match parse_spotify_source(input) {
        Some(Spotify::Track(id)) => Some(("spotify:track", id)),
        _ => None,
    }
}

} // verus!
