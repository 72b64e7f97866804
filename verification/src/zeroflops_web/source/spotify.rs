use crate::spotify::{has_link, is_first_link, link_for};
use crate::zeroflops::{Error, Id, InternalError, List, ListMode, Source, SourceType, Spotify, default_list_query};
use crate::zeroflops_wasm::SpotifyKind;
use crate::zeroflops::spotify::{RecentTrack, RecentTracks as Played};
use crate::zeroflops_web::query::{joined, placeholders};
use crate::zeroflops_web::{Item, UserId, convert_items};
use crate::text::str_eq;
use crate::zeroflops::json::{JsonEntries, JsonEntry, empty_object, insert_number, insert_text, insert_texts, json_object_entries};
use vstd::prelude::*;

verus! {

/// The name of a playlist to create.
#[derive(Clone, Debug, PartialEq, Eq)]
pub struct CreatePlaylist {
    pub name: String,
}

/// The new name of a playlist.
#[derive(Clone, Debug, PartialEq, Eq)]
pub struct UpdatePlaylist {
    pub name: String,
}

/// A Spotify account, with its links by site.
#[derive(Clone, Debug, PartialEq, Eq)]
pub struct User {
    pub id: String,
    pub external_urls: Vec<(String, String)>,
}

/// The tracks that a user played last, as Spotify lists them.
#[derive(Clone, Debug, PartialEq, Eq)]
pub struct RecentTracks {
    pub items: Vec<PlayHistory>,
}

/// One play of a track.
#[derive(Clone, Debug, PartialEq, Eq)]
pub struct PlayHistory {
    pub track: Track,
}

/// A Spotify track.
#[derive(Clone, Debug, PartialEq, Eq)]
pub struct Track {
    pub id: String,
    pub name: String,
    pub album: Album,
    pub artists: Vec<Artist>,
    pub duration_ms: i32,
    pub external_urls: Vec<(String, String)>,
    pub popularity: i32,
    pub track_number: i32,
    pub uri: String,
}

/// The album of a track.
#[derive(Clone, Debug, PartialEq, Eq)]
pub struct Album {
    pub href: String,
    pub name: String,
}

/// An artist of a track.
#[derive(Clone, Debug, PartialEq, Eq)]
pub struct Artist {
    pub name: String,
}

/// A row that the item table holds for a played track: its id, rating and score.
#[derive(Clone, Debug, PartialEq, Eq)]
pub struct KnownTrack {
    pub id: String,
    pub rating: Option<i64>,
    pub user_score: Option<i64>,
}

/// The query that reads the rows of `n` played tracks (by id, as parameters).
pub open spec fn recent_tracks_sql(n: nat) -> Seq<char> {
    "SELECT id, rating, user_score FROM item WHERE id IN ("@ + placeholders(n) + ")"@
}

/// The query that reads the rows of `n` played tracks (see `recent_tracks_sql`).
pub fn recent_tracks_query(n: usize) -> (r: String)
    requires
        n >= 1,
    ensures
        r@ == recent_tracks_sql(n as nat),
{
    let mut marks = String::from_str("?");
    let mut i: usize = 1;
    while i < n
        invariant
            1 <= i <= n,
            marks@ == placeholders(i as nat),
        decreases n - i,
    {
        marks.append(",?");
        i = i + 1;
    }
    String::from_str("SELECT id, rating, user_score FROM item WHERE id IN (").concat(marks.as_str()).concat(")")
}

/// Whether `k` is the last row for the track `id`.
pub open spec fn is_last_row(rows: Seq<KnownTrack>, id: Seq<char>, k: int) -> bool {
    0 <= k < rows.len() && rows[k].id@ == id && forall|j: int| k < j < rows.len() ==> #[trigger] rows[j].id@ != id
}

/// Whether no row is for the track `id`.
pub open spec fn no_row(rows: Seq<KnownTrack>, id: Seq<char>) -> bool {
    forall|j: int| 0 <= j < rows.len() ==> #[trigger] rows[j].id@ != id
}

/// Whether `t` is what the page of recent tracks shows for the play `p`: the track's
/// id (its uri), name and Spotify address, whether it is an item already, and then
/// the rating and score of the last row for it, each cut to 32 bits.
pub open spec fn is_recent_track(p: PlayHistory, rows: Seq<KnownTrack>, t: RecentTrack) -> bool {
    &&& t.id == p.track.uri
    &&& t.name == p.track.name
    &&& exists|i: int| is_first_link(p.track.external_urls@, "spotify"@, i) && p.track.external_urls@[i].1 == t.url
    &&& if no_row(rows, p.track.uri@) {
        !t.added && t.rating is None && t.user_score is None
    } else {
        exists|k: int| is_last_row(rows, p.track.uri@, k) && t.added && t.rating == (match rows[k].rating {
            Some(v) => Some(v as i32),
            None => None::<i32>,
        }) && t.user_score == (match rows[k].user_score {
            Some(v) => Some(v as i32),
            None => None::<i32>,
        })
    }
}

/// The last row for the track `id`, if any.
fn last_row(rows: &Vec<KnownTrack>, id: &str) -> (r: Option<usize>)
    ensures
        match r {
            Some(k) => is_last_row(rows@, id@, k as int),
            None => no_row(rows@, id@),
        },
{
    let mut k: usize = rows.len();
    while k > 0
        invariant
            k <= rows@.len(),
            forall|j: int| k <= j < rows@.len() ==> #[trigger] rows@[j].id@ != id@,
        decreases k,
    {
        if str_eq(rows[k - 1].id.as_str(), id) {
            return Some(k - 1);
        }
        k = k - 1;
    }
    None
}

/// The page of recent tracks: one entry per play, in order (see `is_recent_track`).
pub fn recent_tracks(history: RecentTracks, rows: &Vec<KnownTrack>) -> (r: Played)
    requires
        forall|i: int| 0 <= i < history.items@.len() ==> has_link(#[trigger] history.items@[i].track.external_urls@, "spotify"@),
    ensures
        r.tracks@.len() == history.items@.len(),
        forall|i: int| 0 <= i < history.items@.len() ==> is_recent_track(#[trigger] history.items@[i], rows@, r.tracks@[i]),
{
    let mut tracks: Vec<RecentTrack> = Vec::new();
    let mut i: usize = 0;
    while i < history.items.len()
        invariant
            i <= history.items@.len(),
            tracks@.len() == i,
            forall|j: int| 0 <= j < history.items@.len() ==> has_link(#[trigger] history.items@[j].track.external_urls@, "spotify"@),
            forall|j: int| 0 <= j < i ==> is_recent_track(#[trigger] history.items@[j], rows@, tracks@[j]),
        decreases history.items.len() - i,
    {
        let track = &history.items[i].track;
        assert(has_link(history.items@[i as int].track.external_urls@, "spotify"@));
        let url = link_for(&track.external_urls, "spotify").clone();
        let entry = match last_row(rows, track.uri.as_str()) {
            Some(k) => {
                let rating = match rows[k].rating {
                    Some(v) => Some(#[verifier::truncate] (v as i32)),
                    None => None,
                };
                let user_score = match rows[k].user_score {
                    Some(v) => Some(#[verifier::truncate] (v as i32)),
                    None => None,
                };
                RecentTrack { id: track.uri.clone(), name: track.name.clone(), url, added: true, rating, user_score }
            },
            None => RecentTrack {
                id: track.uri.clone(),
                name: track.name.clone(),
                url,
                added: false,
                rating: None,
                user_score: None,
            },
        };
        tracks.push(entry);
        i = i + 1;
    }
    Played { tracks }
}

/// The address of the Spotify player for a track.
pub open spec fn track_embed_url(track_id: Seq<char>) -> Seq<char> {
    "https://open.spotify.com/embed/track/"@ + track_id + "?utm_source=generator"@
}

/// The metadata of a track: its album's name, its artists' names in order, its
/// length in milliseconds, its popularity and its number on the album.
pub open spec fn track_metadata_entries(track: Track) -> JsonEntries {
    Map::empty()
        .insert("album"@, JsonEntry::Text(track.album.name@))
        .insert("artists"@, JsonEntry::Texts(track.artists@.map_values(|a: Artist| a.name@)))
        .insert("duration_ms"@, JsonEntry::Number(track.duration_ms as i64))
        .insert("popularity"@, JsonEntry::Number(track.popularity as i64))
        .insert("track_number"@, JsonEntry::Number(track.track_number as i64))
}

/// Whether `r` is the fresh item of the user for a Spotify track: keyed by the
/// track's uri, playable in the Spotify player, named after the track, scored 1500,
/// unplayed, unrated, not hidden, with the track's metadata.
pub open spec fn is_spotify_item(r: Item, track: Track, user_id: Seq<char>) -> bool {
    &&& r.id == track.uri
    &&& (r.iframe matches Some(f) && f@ == track_embed_url(track.id@))
    &&& r.user_id@ == user_id
    &&& r.item_type@ == "track"@
    &&& r.name == track.name
    &&& r.rating is None
    &&& r.user_score == 1500
    &&& r.user_wins == 0
    &&& r.user_losses == 0
    &&& !r.hidden
    &&& json_object_entries(r.metadata) == track_metadata_entries(track)
}

/// A fresh item for a Spotify track: keyed by the track's uri, playable in the
/// Spotify player, scored 1500, unplayed, unrated and not hidden, with the track's
/// metadata (see `track_metadata_entries`).
pub fn new_spotify_item(track: Track, user_id: &UserId) -> (r: Item)
    ensures
        is_spotify_item(r, track, user_id.0@),
{
    let ghost t = track;
    let Track { id, name, album, artists, duration_ms, external_urls: _, popularity, track_number, uri } = track;
    let mut artist_names: Vec<String> = Vec::new();
    let mut i: usize = 0;
    while i < artists.len()
        invariant
            i <= artists@.len(),
            artist_names@.len() == i,
            forall|j: int| 0 <= j < i ==> #[trigger] artist_names@[j]@ == artists@[j].name@,
        decreases artists.len() - i,
    {
        artist_names.push(artists[i].name.clone());
        i = i + 1;
    }
    proof {
        assert(artist_names@.map_values(|n: String| n@) =~= artists@.map_values(|a: Artist| a.name@));
    }
    let mut metadata = empty_object();
    insert_text(&mut metadata, "album", album.name);
    insert_texts(&mut metadata, "artists", artist_names);
    insert_number(&mut metadata, "duration_ms", duration_ms);
    insert_number(&mut metadata, "popularity", popularity);
    insert_number(&mut metadata, "track_number", track_number);
    proof {
        assert(json_object_entries(metadata) =~= track_metadata_entries(t));
    }
    Item {
        iframe: Some(String::from_str("https://open.spotify.com/embed/track/").concat(id.as_str()).concat("?utm_source=generator")),
        id: uri,
        user_id: user_id.0.clone(),
        item_type: String::from_str("track"),
        name,
        rating: None,
        user_score: 1500,
        user_wins: 0,
        user_losses: 0,
        metadata,
        hidden: false,
    }
}

/// What `urlencoding::encode` makes of a text: each byte of its UTF-8 form that is
/// not a letter, digit, `-`, `.`, `_` or `~` as `%` and two upper-case hex digits.
pub uninterp spec fn url_encoded(s: Seq<char>) -> Seq<char>;

/// `urlencoding::encode(s)`, made owned. Trusted to give what `url_encoded` names.
#[verifier::external_body]
fn encode(s: &str) -> (r: String)
    ensures
        r@ == url_encoded(s@),
{
    urlencoding::encode(s).into_owned()
}

/// The address that searches Spotify for a track by name, and by artist where one is
/// given.
pub open spec fn search_url(name: Seq<char>, artist: Option<Seq<char>>) -> Seq<char> {
    match artist {
        Some(a) => "https://api.spotify.com/v1/search?q=track:"@ + url_encoded(name) + "%20artist:"@ + url_encoded(a)
            + "&type=track"@,
        None => "https://api.spotify.com/v1/search?q=track:"@ + url_encoded(name) + "&type=track"@,
    }
}

/// The address that searches Spotify for a track (see `search_url`).
pub fn search_uri(name: &str, artist: Option<&str>) -> (r: String)
    ensures
        r@ == search_url(name@, match artist { Some(a) => Some(a@), None => None }),
{
    let encoded_name = encode(name);
    match artist {
        Some(a) => {
            let encoded_artist = encode(a);
            String::from_str("https://api.spotify.com/v1/search?q=track:").concat(encoded_name.as_str()).concat(
                "%20artist:",
            ).concat(encoded_artist.as_str()).concat("&type=track")
        },
        None => String::from_str("https://api.spotify.com/v1/search?q=track:").concat(encoded_name.as_str()).concat(
            "&type=track",
        ),
    }
}

/// The first track of a search, or the client error that nothing was found.
pub fn first_search_result(tracks: Vec<Track>, user_id: &UserId) -> (r: Result<Item, Error>)
    ensures
        tracks@.len() == 0 ==> (r matches Err(e) && e.client_message() == Some("Couldn't find song for query"@)),
        tracks@.len() > 0 ==> (r matches Ok(item) && item.id == tracks@[0].uri && item.name == tracks@[0].name),
{
    let mut tracks = tracks;
    if tracks.len() == 0 {
        return Err(Error::client_error("Couldn't find song for query"));
    }
    let first = tracks.remove(0);
    Ok(new_spotify_item(first, user_id))
}

/// The kinds of Spotify collection that can be imported as a list.
#[derive(Clone, Copy, Debug, PartialEq, Eq, Structural)]
pub enum Collection {
    Playlist,
    Album,
}

/// The name of a kind of collection in Spotify's addresses.
pub open spec fn collection_name(c: Collection) -> Seq<char> {
    match c {
        Collection::Playlist => "playlist"@,
        Collection::Album => "album"@,
    }
}

/// The address of the Spotify player for a collection.
pub open spec fn collection_embed_url(c: Collection, id: Seq<char>) -> Seq<char> {
    "https://open.spotify.com/embed/"@ + collection_name(c) + "/"@ + id + "?utm_source=generator"@
}

/// The outside id of a collection: its Spotify id, and its player's address as text.
pub fn collection_id(c: Collection, id: String) -> (r: Id)
    ensures
        r.id == id,
        r.raw_id@ == collection_embed_url(c, id@),
{
    let kind = match c {
        Collection::Playlist => "playlist",
        Collection::Album => "album",
    };
    let raw_id = String::from_str("https://open.spotify.com/embed/").concat(kind).concat("/").concat(id.as_str()).concat(
        "?utm_source=generator",
    );
    Id { id, raw_id }
}

/// The external list of an imported collection: keyed and played by the collection,
/// named after its source, which is its one source, with an entry per item, private
/// and no favorite, selecting the name and score of its items.
pub fn external_list(id: Id, user_id: &UserId, source: Source, items: &[Item]) -> (r: List)
    ensures
        r.id == id.id,
        r.user_id@ == user_id.0@,
        r.mode == ListMode::External,
        r.name == source.name,
        r.sources@ == seq![source],
        r.iframe == Some(id.raw_id),
        r.items@.len() == items@.len(),
        forall|i: int| 0 <= i < items@.len() ==> {
            &&& #[trigger] r.items@[i].id == items@[i].id
            &&& r.items@[i].name == items@[i].name
            &&& r.items@[i].score == 1500
        },
        !r.favorite,
        r.query@ == default_list_query(),
        !r.public,
{
    let name = source.name.clone();
    let entries = convert_items(items);
    assert forall|i: int| 0 <= i < items@.len() implies {
        &&& #[trigger] entries@[i].id == items@[i].id
        &&& entries@[i].name == items@[i].name
        &&& entries@[i].score == 1500
    } by {
        assert(entries@.len() == items@.len());
        assert(entries@[i].id == items@[i].id);
    }
    let mut sources: Vec<Source> = Vec::new();
    sources.push(source);
    List {
        id: id.id,
        user_id: user_id.0.clone(),
        mode: ListMode::External,
        name,
        sources,
        iframe: Some(id.raw_id),
        items: entries,
        favorite: false,
        query: String::from_str("SELECT name, user_score FROM item"),
        public: false,
    }
}

/// The ids of the `k`-th group of up to 100.
pub open spec fn chunk(ids: Seq<Seq<char>>, k: int) -> Seq<Seq<char>> {
    ids.subrange(100 * k, if 100 * k + 100 <= ids.len() { 100 * k + 100 } else { ids.len() as int })
}

/// The number of requests that fill a playlist with `n` tracks: one per 100, and one
/// that empties the playlist when there are none.
pub open spec fn chunk_count(n: nat) -> nat {
    if n == 0 { 1 } else { ((n + 99) / 100) as nat }
}

/// The address that sets (for the first) or adds (for the others) a group of tracks
/// of a playlist.
pub open spec fn playlist_tracks_url(playlist_id: Seq<char>, ids: Seq<Seq<char>>) -> Seq<char> {
    "https://api.spotify.com/v1/playlists/"@ + playlist_id + "/tracks?uris="@ + joined(ids, ","@)
}

/// The addresses that fill a playlist with the tracks, 100 at a time: the first
/// replaces the playlist's tracks (with none where there are none), the others add.
pub fn playlist_update_uris(playlist_id: &str, ids: &Vec<String>) -> (r: Vec<String>)
    ensures
        r@.len() == chunk_count(ids@.len()),
        forall|k: int| 0 <= k < r@.len() ==> #[trigger] r@[k]@ == playlist_tracks_url(
            playlist_id@,
            chunk(ids@.map_values(|s: String| s@), k),
        ),
{
    let ghost all = ids@.map_values(|s: String| s@);
    let n = ids.len();
    let count: usize = if n == 0 { 1 } else { n / 100 + if n % 100 != 0 { 1 } else { 0 } };
    assert(count == chunk_count(n as nat));
    let mut out: Vec<String> = Vec::new();
    let mut k: usize = 0;
    while k < count
        invariant
            all == ids@.map_values(|s: String| s@),
            n == ids@.len(),
            count == chunk_count(n as nat),
            k <= count,
            k == out@.len(),
            forall|j: int| 0 <= j < k ==> #[trigger] out@[j]@ == playlist_tracks_url(playlist_id@, chunk(all, j)),
        decreases count - k,
    {
        let start = 100 * k;
        let end = if n - start >= 100 { start + 100 } else { n };
        let mut text = String::new();
        let mut i: usize = start;
        while i < end
            invariant
                all == ids@.map_values(|s: String| s@),
                start <= i <= end <= n,
                n == ids@.len(),
                text@ == joined(all.subrange(start as int, i as int), ","@),
            decreases end - i,
        {
            proof {
                assert(all.subrange(start as int, i + 1).drop_last() =~= all.subrange(start as int, i as int));
            }
            if i > start {
                text.append(",");
            }
            text.append(ids[i].as_str());
            proof {
                if i == start {
                    assert(text@ =~= all.subrange(start as int, i + 1)[0]);
                }
            }
            i = i + 1;
        }
        assert(all.subrange(start as int, end as int) == chunk(all, k as int));
        let uri = String::from_str("https://api.spotify.com/v1/playlists/").concat(playlist_id).concat("/tracks?uris=").concat(
            text.as_str(),
        );
        out.push(uri);
        k = k + 1;
    }
    out
}

/// The address of a playlist's details.
pub fn playlist_url(id: &str) -> (r: String)
    ensures
        r@ == "https://api.spotify.com/v1/playlists/"@ + id@ + "?limit=50"@,
{
    String::from_str("https://api.spotify.com/v1/playlists/").concat(id).concat("?limit=50")
}

/// The address of the first page of a playlist's tracks.
pub fn playlist_items_url(id: &str) -> (r: String)
    ensures
        r@ == "https://api.spotify.com/v1/playlists/"@ + id@ + "/tracks"@,
{
    String::from_str("https://api.spotify.com/v1/playlists/").concat(id).concat("/tracks")
}

/// The address of an album's details.
pub fn album_url(id: &str) -> (r: String)
    ensures
        r@ == "https://api.spotify.com/v1/albums/"@ + id@,
{
    String::from_str("https://api.spotify.com/v1/albums/").concat(id)
}

/// The address of an album's tracks.
pub fn album_tracks_url(id: &str) -> (r: String)
    ensures
        r@ == "https://api.spotify.com/v1/albums/"@ + id@ + "/tracks?limit=50"@,
{
    String::from_str("https://api.spotify.com/v1/albums/").concat(id).concat("/tracks?limit=50")
}

/// The address of a track.
pub fn track_url(id: &str) -> (r: String)
    ensures
        r@ == "https://api.spotify.com/v1/tracks/"@ + id@,
{
    String::from_str("https://api.spotify.com/v1/tracks/").concat(id)
}

/// The items that the pages of a Spotify collection gave so far, in order.
pub struct TrackPages {
    pub items: Vec<Item>,
}

impl TrackPages {
    /// No page read yet.
    pub fn new() -> (r: TrackPages)
        ensures
            r.items@.len() == 0,
    {
        TrackPages { items: Vec::new() }
    }

    /// Takes a page: each of its tracks becomes a fresh item of the user, after those
    /// already read. Returns the address of the next page, where there is one.
    pub fn take_page(&mut self, tracks: Vec<Track>, next: Option<String>, user_id: &UserId) -> (r: Option<String>)
        ensures
            r == next,
            final(self).items@.len() == old(self).items@.len() + tracks@.len(),
            forall|i: int| 0 <= i < old(self).items@.len() ==> #[trigger] final(self).items@[i] == old(self).items@[i],
            forall|j: int| 0 <= j < tracks@.len() ==> is_spotify_item(
                #[trigger] final(self).items@[old(self).items@.len() + j],
                tracks@[j],
                user_id.0@,
            ),
    {
        let ghost before = self.items@;
        let ghost all = tracks@;
        let mut rest = tracks;
        let n = rest.len();
        let mut k: usize = 0;
        while k < n
            invariant
                n == all.len(),
                k <= n,
                rest@ == all.subrange(k as int, n as int),
                self.items@.len() == before.len() + k,
                forall|i: int| 0 <= i < before.len() ==> #[trigger] self.items@[i] == before[i],
                forall|j: int| 0 <= j < k ==> is_spotify_item(#[trigger] self.items@[before.len() + j], all[j], user_id.0@),
            decreases n - k,
        {
            let track = rest.remove(0);
            assert(track == all[k as int]);
            let item = new_spotify_item(track, user_id);
            self.items.push(item);
            k = k + 1;
            assert(rest@ =~= all.subrange(k as int, n as int));
        }
        next
    }
}

/// The source that a Spotify collection becomes: the playlist, album or track with its
/// name.
pub fn spotify_source(kind: SpotifyKind, id: Id, name: String) -> (r: Source)
    ensures
        r.name == name,
        r.source_type == SourceType::Spotify(
            match kind {
                SpotifyKind::Playlist => Spotify::Playlist(id),
                SpotifyKind::Album => Spotify::Album(id),
                SpotifyKind::Track => Spotify::Track(id),
            },
        ),
{
    let s = match kind {
        SpotifyKind::Playlist => Spotify::Playlist(id),
        SpotifyKind::Album => Spotify::Album(id),
        SpotifyKind::Track => Spotify::Track(id),
    };
    Source { source_type: SourceType::Spotify(s), name }
}

/// The address that creates a playlist for a user.
pub fn user_playlists_url(user_id: &UserId) -> (r: String)
    ensures
        r@ == "https://api.spotify.com/v1/users/"@ + user_id.0@ + "/playlists"@,
{
    String::from_str("https://api.spotify.com/v1/users/").concat(user_id.0.as_str()).concat("/playlists")
}

/// The address that renames a playlist.
pub fn playlist_details_url(playlist_id: &str) -> (r: String)
    ensures
        r@ == "https://api.spotify.com/v1/playlists/"@ + playlist_id@,
{
    String::from_str("https://api.spotify.com/v1/playlists/").concat(playlist_id)
}

/// The server error for a refused change of a playlist's tracks, with Spotify's
/// answer.
pub fn playlist_update_error(answer: &str) -> (r: Error)
    ensures
        r matches Error::InternalError(InternalError::Error(m)) && m@ == "Spotify update playlist items error: "@
            + answer@,
{
    Error::InternalError(
        InternalError::Error(String::from_str("Spotify update playlist items error: ").concat(answer)),
    )
}

} // verus!
