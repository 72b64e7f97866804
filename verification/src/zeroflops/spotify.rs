use vstd::prelude::*;

verus! {

/// The tracks that a user played last.
#[derive(Clone, Debug, PartialEq, Eq)]
pub struct RecentTracks {
    pub tracks: Vec<RecentTrack>,
}

/// A track that a user played, and whether it is already among the user's items.
#[derive(Clone, Debug, PartialEq, Eq)]
pub struct RecentTrack {
    pub id: String,
    pub name: String,
    pub url: String,
    pub added: bool,
    pub rating: Option<i32>,
    pub user_score: Option<i32>,
}

/// A page of a user's playlists.
#[derive(Clone, Debug, PartialEq, Eq)]
pub struct Playlists {
    pub items: Vec<Playlist>,
}

/// A playlist, with its links by site: pairs of site name and address.
#[derive(Clone, Debug, PartialEq, Eq)]
pub struct Playlist {
    pub id: String,
    pub name: String,
    pub external_urls: Vec<(String, String)>,
}

} // verus!
