pub mod json;
pub mod spotify;
pub mod storage;

use crate::text::{before_first, str_eq, text_before};
use vstd::prelude::*;

verus! {

/// The id under which a user's data is kept.
#[derive(Clone, Debug, PartialEq, Eq)]
pub struct UserId(pub String);

/// All lists of a user.
#[derive(Clone, Debug, PartialEq)]
pub struct Lists {
    pub lists: Vec<List>,
}

/// A ranked list of items.
#[derive(Clone, Debug, PartialEq)]
pub struct List {
    pub id: String,
    pub user_id: String,
    pub mode: ListMode,
    /// Not editable for external lists.
    pub name: String,
    /// An external list has one source, which matches its id; a view has none.
    pub sources: Vec<Source>,
    pub iframe: Option<String>,
    pub items: Vec<ItemMetadata>,
    pub favorite: bool,
    /// For external lists the query only selects fields; it does not filter.
    pub query: String,
    pub public: bool,
}

/// The query that a new list starts with.
pub open spec fn default_list_query() -> Seq<char> {
    "SELECT name, user_score FROM item"@
}

impl List {
    /// A new private list that is no favorite and selects the name and score of its items.
    pub fn new(
        id: String,
        user_id: &UserId,
        mode: ListMode,
        name: String,
        sources: Vec<Source>,
        iframe: Option<String>,
        items: Vec<ItemMetadata>,
    ) -> (r: List)
        ensures
            r.id == id,
            r.user_id@ == user_id.0@,
            r.mode == mode,
            r.name == name,
            r.sources == sources,
            r.iframe == iframe,
            r.items == items,
            !r.favorite,
            r.query@ == default_list_query(),
            !r.public,
    {
        List {
            id,
            user_id: user_id.0.clone(),
            mode,
            name,
            sources,
            iframe,
            items,
            favorite: false,
            query: String::from_str("SELECT name, user_score FROM item"),
            public: false,
        }
    }
}

/// A list as the database stores it: mode, sources and items as JSON text.
#[derive(Clone, Debug, PartialEq, Eq)]
pub struct RawList {
    pub id: String,
    pub user_id: String,
    pub mode: String,
    pub name: String,
    pub sources: String,
    pub iframe: Option<String>,
    pub items: String,
    pub favorite: bool,
    pub query: String,
    pub public: Option<bool>,
}

/// What a list knows about one of its items.
#[derive(Clone, Debug, PartialEq, Eq)]
pub struct ItemMetadata {
    pub id: String,
    pub name: String,
    pub iframe: Option<String>,
    pub score: i32,
    pub wins: i32,
    pub losses: i32,
    pub rank: Option<i32>,
}

impl ItemMetadata {
    /// A fresh item: rated 1500, no games played and no rank yet.
    pub fn new(id: String, name: String, iframe: Option<String>) -> (r: ItemMetadata)
        ensures
            r.id == id,
            r.name == name,
            r.iframe == iframe,
            r.score == 1500,
            r.wins == 0,
            r.losses == 0,
            r.rank is None,
    {
        ItemMetadata { id, name, iframe, score: 1500, wins: 0, losses: 0, rank: None }
    }
}

/// Where the items of a list come from.
#[derive(Clone, Debug, PartialEq, Eq)]
pub enum ListMode {
    /// A list of the user's own that can pull from several sources and be pushed
    /// to an outside playlist.
    User(Option<Id>),
    /// A list pulled from an outside source.
    External,
    /// A read-only list.
    View(Option<Id>),
}

/// A data source of a list.
#[derive(Clone, Debug, PartialEq)]
pub struct Source {
    pub source_type: SourceType,
    pub name: String,
}

/// The kinds of data source.
#[derive(Clone, Debug, PartialEq)]
pub enum SourceType {
    Custom(serde_json::Value),
    Spotify(Spotify),
    Setlist(Id),
    ListItems(String),
}

/// The origin that a source pushes to: Spotify sources and setlists to Spotify,
/// list-item sources to wherever their items come from, custom sources nowhere.
pub open spec fn source_origin(st: SourceType) -> Option<Seq<char>> {
    match st {
        SourceType::Spotify(_) => Some("spotify"@),
        SourceType::Setlist(_) => Some("spotify"@),
        SourceType::ListItems(_) => Some("list"@),
        SourceType::Custom(_) => None,
    }
}

/// The characters of an optional text.
pub open spec fn opt_text(o: Option<&str>) -> Option<Seq<char>> {
    match o {
        Some(s) => Some(s@),
        None => None,
    }
}

/// The origin of an item: the part of its id before the first `:`.
pub open spec fn item_origin(item: ItemMetadata) -> Seq<char> {
    before_first(item.id@, ':')
}

/// The one origin that a list can be pushed to, with the outside id of the
/// playlist that it is pushed to, or the message of the client error that tells
/// why there is none.
pub open spec fn unique_source(l: List) -> Result<(Option<Seq<char>>, Option<Id>), Seq<char>> {
    match l.mode {
        ListMode::View(ext) => Ok((Some("spotify"@), ext)),
        ListMode::External => Err("Push is not supported for this list type"@),
        ListMode::User(ext) => {
            let srcs = l.sources@;
            let first = source_origin(srcs[0].source_type);
            if srcs.len() == 0 {
                Err("List has no sources"@)
            } else if first is None {
                Err("Push is not supported for the source"@)
            } else if exists|i: int| 1 <= i < srcs.len() && #[trigger] source_origin(srcs[i].source_type) != first {
                Err("List has multiple sources"@)
            } else if first == Some("list"@) {
                let items = l.items@;
                if items.len() == 0 {
                    Err("List has no items"@)
                } else if exists|i: int| 1 <= i < items.len() && #[trigger] item_origin(items[i]) != item_origin(items[0]) {
                    Err("List has items from multiple sources"@)
                } else {
                    Ok((Some("spotify"@), ext))
                }
            } else {
                Ok((first, ext))
            }
        },
    }
}

/// A user list is pushed only where every one of its sources has the origin of the
/// first, and the first has one: where some source's origin differs from the first's
/// (a custom source has none), the list is refused as having several sources.
pub proof fn lemma_mixed_sources_refused(l: List, i: int)
    requires
        l.mode is User,
        1 <= i < l.sources@.len(),
        source_origin(l.sources@[0].source_type) is Some,
        source_origin(l.sources@[i].source_type) != source_origin(l.sources@[0].source_type),
    ensures
        unique_source(l) == Err::<(Option<Seq<char>>, Option<Id>), Seq<char>>("List has multiple sources"@),
{
    assert(exists|j: int| 1 <= j < l.sources@.len() && #[trigger] source_origin(l.sources@[j].source_type) != source_origin(
        l.sources@[0].source_type,
    )) by {
        assert(source_origin(l.sources@[i].source_type) != source_origin(l.sources@[0].source_type));
    }
}

/// A user list that can be pushed has sources, and all of them share one origin.
pub proof fn lemma_pushed_sources_agree(l: List)
    requires
        l.mode is User,
        unique_source(l) is Ok,
    ensures
        l.sources@.len() > 0,
        source_origin(l.sources@[0].source_type) is Some,
        forall|i: int| 0 <= i < l.sources@.len() ==> #[trigger] source_origin(l.sources@[i].source_type)
            == source_origin(l.sources@[0].source_type),
{
    assert forall|i: int| 0 <= i < l.sources@.len() implies #[trigger] source_origin(l.sources@[i].source_type)
        == source_origin(l.sources@[0].source_type) by {
        if i >= 1 && source_origin(l.sources@[i].source_type) != source_origin(l.sources@[0].source_type) {
            lemma_mixed_sources_refused(l, i);
        }
    }
}

/// The address of the Spotify player for a playlist.
pub open spec fn spotify_embed_url(playlist_id: Seq<char>) -> Seq<char> {
    "https://open.spotify.com/embed/playlist/"@ + playlist_id + "?utm_source=generator"@
}

impl List {
    /// The origin that this list can be pushed to, and the outside playlist that it
    /// is pushed to; a client error where the list cannot be pushed.
    pub fn get_unique_source(&self) -> (r: Result<(Option<&str>, &Option<Id>), Error>)
        ensures
            match r {
                Ok((s, ext)) => unique_source(*self) == Ok::<(Option<Seq<char>>, Option<Id>), Seq<char>>((opt_text(s), *ext)),
                Err(e) => unique_source(*self) matches Err(m) && e.client_message() == Some(m),
            },
            r is Ok && self.mode is User ==> forall|i: int| 0 <= i < self.sources@.len()
                ==> #[trigger] source_origin(self.sources@[i].source_type) == source_origin(self.sources@[0].source_type),
    {
        proof {
            if self.mode is User && unique_source(*self) is Ok {
                lemma_pushed_sources_agree(*self);
            }
        }
        match &self.mode {
            ListMode::View(external_id) => Ok((Some("spotify"), external_id)),
            ListMode::External => Err(Error::client_error("Push is not supported for this list type")),
            ListMode::User(external_id) => {
                let n = self.sources.len();
                if n == 0 {
                    return Err(Error::client_error("List has no sources"));
                }
                let source = get_source_id(&self.sources[0]);
                if source.is_none() {
                    return Err(Error::client_error("Push is not supported for the source"));
                }
                let mut i: usize = 1;
                while i < n
                    invariant
                        self.mode is User,
                        source is Some,
                        n == self.sources@.len(),
                        1 <= i <= n,
                        opt_text(source) == source_origin(self.sources@[0].source_type),
                        forall|j: int| 1 <= j < i ==> #[trigger] source_origin(self.sources@[j].source_type) == opt_text(source),
                    decreases n - i,
                {
                    let s = get_source_id(&self.sources[i]);
                    if !same_text(s, source) {
                        assert(source_origin(self.sources@[i as int].source_type) != source_origin(self.sources@[0].source_type));
                        return Err(Error::client_error("List has multiple sources"));
                    }
                    i = i + 1;
                }
                let src = source.unwrap();
                if str_eq(src, "list") {
                    let m = self.items.len();
                    if m == 0 {
                        return Err(Error::client_error("List has no items"));
                    }
                    let prefix = text_before(self.items[0].id.as_str(), ':');
                    let mut k: usize = 1;
                    while k < m
                        invariant
                            self.mode is User,
                            n == self.sources@.len(),
                            n > 0,
                            opt_text(source) == source_origin(self.sources@[0].source_type),
                            forall|j: int| 1 <= j < n ==> #[trigger] source_origin(self.sources@[j].source_type) == opt_text(source),
                            source == Some(src),
                            src@ == "list"@,
                            m == self.items@.len(),
                            1 <= k <= m,
                            prefix@ == item_origin(self.items@[0]),
                            forall|j: int| 1 <= j < k ==> #[trigger] item_origin(self.items@[j]) == prefix@,
                        decreases m - k,
                    {
                        let p = text_before(self.items[k].id.as_str(), ':');
                        if !str_eq(p, prefix) {
                            assert(item_origin(self.items@[k as int]) != item_origin(self.items@[0]));
                            return Err(Error::client_error("List has items from multiple sources"));
                        }
                        k = k + 1;
                    }
                    return Ok((Some("spotify"), external_id));
                }
                Ok((source, external_id))
            },
        }
    }

    /// Points the list's player at its outside playlist where the list is pushed to
    /// one on Spotify; leaves the list as it is otherwise.
    pub fn update_iframe(&mut self)
        ensures
            match unique_source(*old(self)) {
                Ok((Some(s), Some(ext))) => if s == "spotify"@ {
                    &&& final(self).iframe matches Some(f) && f@ == spotify_embed_url(ext.id@)
                    &&& *final(self) == (List { iframe: final(self).iframe, ..*old(self) })
                } else {
                    *final(self) == *old(self)
                },
                _ => *final(self) == *old(self),
            },
    {
        let url = match self.get_unique_source() {
            Ok((Some(s), Some(external_id))) => if str_eq(s, "spotify") {
                let u = String::from_str("https://open.spotify.com/embed/playlist/")
                    .concat(external_id.id.as_str())
                    .concat("?utm_source=generator");
                Some(u)
            } else {
                None
            },
            _ => None,
        };
        if let Some(u) = url {
            self.iframe = Some(u);
        }
    }
}

/// The origin of a source (see `source_origin`).
fn get_source_id(source: &Source) -> (r: Option<&'static str>)
    ensures
        opt_text(r) == source_origin(source.source_type),
{
    match source.source_type {
        SourceType::Spotify(_) => Some("spotify"),
        SourceType::Setlist(_) => Some("spotify"),
        SourceType::ListItems(_) => Some("list"),
        _ => None,
    }
}

/// Whether two optional texts are equal.
fn same_text(a: Option<&str>, b: Option<&str>) -> (r: bool)
    ensures
        r == (opt_text(a) == opt_text(b)),
{
    match (a, b) {
        (Some(x), Some(y)) => str_eq(x, y),
        (None, None) => true,
        _ => false,
    }
}

/// A Spotify playlist, album or track.
#[derive(Clone, Debug, PartialEq, Eq)]
pub enum Spotify {
    Playlist(Id),
    Album(Id),
    Track(Id),
}

/// An outside id, with the text that it was read from.
#[derive(Clone, Debug, PartialEq, Eq)]
pub struct Id {
    pub id: String,
    pub raw_id: String,
}

/// The items of a list, in list order; `None` where a list item is not known.
#[derive(Clone, Debug, PartialEq, Eq)]
pub struct Items {
    pub items: Vec<Option<ItemMetadata>>,
}

/// The account of a user, with the outside accounts linked to it.
#[derive(Clone, Debug, PartialEq, Eq)]
pub struct User {
    pub user_id: String,
    pub spotify_user: Option<String>,
    pub spotify_url: Option<String>,
    pub google_email: Option<String>,
}

/// An error of the service: the client's fault, the server's, or a missing document.
#[derive(Debug)]
pub enum Error {
    ClientError(String),
    InternalError(InternalError),
    NotFound,
}

/// What went wrong on the server's side.
#[derive(Debug)]
pub enum InternalError {
    /// A JSON document that did not parse or serialise, with serde_json's message.
    JSONError(String),
    Error(String),
}

impl Error {
    /// An error that the client caused, with the given message.
    pub fn client_error(e: &str) -> (r: Error)
        ensures
            r matches Error::ClientError(m) && m@ == e@,
    {
        Error::ClientError(String::from_str(e))
    }

    /// An error of the server, with the given message.
    pub fn internal_error(e: &str) -> (r: Error)
        ensures
            r matches Error::InternalError(InternalError::Error(m)) && m@ == e@,
    {
        Error::InternalError(InternalError::Error(String::from_str(e)))
    }

    /// The message of a client error, if this is one.
    pub open spec fn client_message(self) -> Option<Seq<char>> {
        match self {
            Error::ClientError(m) => Some(m@),
            _ => None,
        }
    }
}

} // verus!
