use crate::zeroflops::Id;
use crate::zeroflops::spotify::{Playlists, RecentTracks};
use crate::zeroflops_wasm::{SpotifyKind, import_request, import_source_name, import_track_request, spotify_parse};
use vstd::prelude::*;

verus! {

/// What the Spotify page does in answer to the user and the server.
pub enum Msg {
    /// Nothing happened.
    Noop,
    LoadRecentTracks(RecentTracks),
    LoadPlaylists(Playlists),
    /// Import was pressed with the address as typed.
    Import(String),
    /// A recent track's import was pressed, with its address.
    ImportTrack(String),
}

/// The outside work that a step asks for.
#[derive(Debug, PartialEq, Eq)]
pub enum Action {
    Nothing,
    /// Import the source with this name and id.
    ImportList(&'static str, Id),
}

/// The Spotify page of a user: the tracks played last and the playlists, once they
/// arrived.
pub struct SpotifyIntegration {
    pub recent_tracks: Option<RecentTracks>,
    pub playlists: Option<Playlists>,
}

/// Whether `a` asks to import the source that `input` names under `source`.
pub open spec fn imports(a: Action, source: Seq<char>, c: Seq<char>, input: Seq<char>) -> bool {
    a matches Action::ImportList(s, id) && s@ == source && id.id@ == c && id.raw_id@ == input
}

impl SpotifyIntegration {
    /// The page before anything arrived.
    pub fn new() -> (r: SpotifyIntegration)
        ensures
            r.recent_tracks is None,
            r.playlists is None,
    {
        SpotifyIntegration { recent_tracks: None, playlists: None }
    }

    /// Takes one message: says whether the page is drawn again and what to do outside.
    /// An address that names no source (or, for a recent track, no track) is ignored.
    pub fn update(&mut self, msg: Msg) -> (r: (bool, Action))
        ensures
            match msg {
                Msg::Noop => r == (true, Action::Nothing),
                Msg::LoadRecentTracks(t) => final(self).recent_tracks == Some(t) && final(self).playlists == old(
                    self,
                ).playlists && r == (true, Action::Nothing),
                Msg::LoadPlaylists(p) => final(self).playlists == Some(p) && final(self).recent_tracks == old(
                    self,
                ).recent_tracks && r == (true, Action::Nothing),
                Msg::Import(input) => match spotify_parse(input@) {
                    Some((k, c)) => r.0 && imports(r.1, import_source_name(k), c, input@),
                    None => r == (false, Action::Nothing),
                },
                Msg::ImportTrack(input) => match spotify_parse(input@) {
                    Some((SpotifyKind::Track, c)) => r.0 && imports(r.1, "spotify:track"@, c, input@),
                    _ => r == (false, Action::Nothing),
                },
            },
            match msg {
                Msg::LoadRecentTracks(_) | Msg::LoadPlaylists(_) => true,
                _ => final(self).recent_tracks == old(self).recent_tracks && final(self).playlists == old(self).playlists,
            },
    {
        match msg {
            Msg::Noop => (true, Action::Nothing),
            Msg::LoadRecentTracks(t) => {
                self.recent_tracks = Some(t);
                (true, Action::Nothing)
            },
            Msg::LoadPlaylists(p) => {
                self.playlists = Some(p);
                (true, Action::Nothing)
            },
            Msg::Import(input) => match import_request(input) {
                Some((source, id)) => (true, Action::ImportList(source, id)),
                None => (false, Action::Nothing),
            },
            Msg::ImportTrack(input) => match import_track_request(input) {
                Some((source, id)) => (true, Action::ImportList(source, id)),
                None => (false, Action::Nothing),
            },
        }
    }
}

} // verus!
