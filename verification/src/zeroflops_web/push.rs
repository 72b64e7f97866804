use crate::spotify::{has_link, is_first_link, link_for};
use crate::zeroflops::{Error, Id, List, ListMode, unique_source};
use vstd::prelude::*;

verus! {

/// Where pushing a list to its Spotify playlist stands.
pub enum PushState {
    /// Waiting for the list.
    Start,
    /// Waiting for an access token, with the playlist that the list goes to, if any.
    Authorizing(List, Option<String>),
    /// Waiting for the list's playlist to take the list's name.
    Renaming(List, String),
    /// Waiting for a new playlist for the list.
    Creating(List),
    /// Waiting for the list to be stored with its new playlist.
    Saving(List, String),
    /// Waiting for the ids of the list's items, to fill this playlist.
    Collecting(String),
    Done,
}

/// What the outside world reports to a push.
pub enum PushEvent {
    /// The list arrived.
    ListLoaded(List),
    /// An access token arrived (the caller keeps it).
    Token,
    /// The playlist was renamed.
    Renamed,
    /// A playlist was created: its id and its links by site.
    Created(String, Vec<(String, String)>),
    /// The list was stored.
    Saved,
    /// The ids of the list's items, in order.
    ItemIds(Vec<String>),
}

/// The outside work that a step of a push asks for.
#[derive(Debug, PartialEq)]
pub enum PushAction {
    GetAccessToken,
    /// Rename the playlist with this id to this name.
    RenamePlaylist(String, String),
    /// Create a playlist with this name.
    CreatePlaylist(String),
    /// Store the list as the new state holds it.
    SaveList,
    /// Read the ids of the items of this user's list, in list order.
    ListItemIds(List),
    /// Read the ids of the items that this view selects.
    ViewItemIds(List),
    /// Fill the playlist with this id with these tracks.
    ReplaceTracks(String, Vec<String>),
}

/// Whether the event can come in the state.
pub open spec fn push_fits(state: PushState, event: PushEvent) -> bool {
    match (state, event) {
        (PushState::Start, PushEvent::ListLoaded(_)) => true,
        (PushState::Authorizing(..), PushEvent::Token) => true,
        (PushState::Renaming(..), PushEvent::Renamed) => true,
        (PushState::Creating(l), PushEvent::Created(_, links)) => has_link(links@, "spotify"@) && !(l.mode is External),
        (PushState::Saving(..), PushEvent::Saved) => true,
        (PushState::Collecting(_), PushEvent::ItemIds(_)) => true,
        _ => false,
    }
}

/// The step that reads the ids of a list's items: a user's list by its entries, a
/// view by its query.
pub open spec fn collect_action(l: List) -> PushAction {
    if l.mode is View {
        PushAction::ViewItemIds(l)
    } else {
        PushAction::ListItemIds(l)
    }
}

/// The step that reads the ids of a list's items (see `collect_action`).
fn collect(l: List) -> (r: PushAction)
    ensures
        r == collect_action(l),
{
    match l.mode {
        ListMode::View(_) => PushAction::ViewItemIds(l),
        _ => PushAction::ListItemIds(l),
    }
}

/// Takes one step of pushing a list to Spotify. A list that cannot be pushed gets the
/// client error that `get_unique_source` gives it. A list with a playlist renames it;
/// one without gets a new playlist, which the list then points at and is stored with.
/// Then the playlist is filled with the list's items.
pub fn push_step(state: PushState, event: PushEvent) -> (r: Result<(PushState, PushAction), Error>)
    requires
        push_fits(state, event),
    ensures
        match (state, event) {
            (PushState::Start, PushEvent::ListLoaded(l)) => match unique_source(l) {
                Ok((_, ext)) => r matches Ok((s, a)) && a == PushAction::GetAccessToken && (s matches PushState::Authorizing(
                    l2,
                    target,
                ) && l2 == l && match ext {
                    Some(i) => target matches Some(t) && t == i.id,
                    None => target is None,
                }),
                Err(m) => r matches Err(e) && e.client_message() == Some(m),
            },
            (PushState::Authorizing(l, Some(t)), PushEvent::Token) => r matches Ok((s, a)) && (s matches PushState::Renaming(
                l2,
                t2,
            ) && l2 == l && t2 == t) && a == PushAction::RenamePlaylist(t, l.name),
            (PushState::Authorizing(l, None), PushEvent::Token) => r matches Ok((s, a)) && (s matches PushState::Creating(l2)
                && l2 == l) && a == PushAction::CreatePlaylist(l.name),
            (PushState::Renaming(l, t), PushEvent::Renamed) => r matches Ok((s, a)) && (s matches PushState::Collecting(t2)
                && t2 == t) && a == collect_action(l),
            (PushState::Creating(l), PushEvent::Created(pid, links)) => r matches Ok((s, a)) && exists|i: int|
                is_first_link(links@, "spotify"@, i) && {
                    let id = (Id { id: pid, raw_id: links@[i].1 });
                    let l2 = (List {
                        mode: if l.mode is View { ListMode::View(Some(id)) } else { ListMode::User(Some(id)) },
                        ..l
                    });
                    &&& a == PushAction::SaveList
                    &&& s matches PushState::Saving(l3, t) && l3 == l2 && t == pid
                },
            (PushState::Saving(l, t), PushEvent::Saved) => r matches Ok((s, a)) && (s matches PushState::Collecting(t2)
                && t2 == t) && a == collect_action(l),
            (PushState::Collecting(t), PushEvent::ItemIds(ids)) => r matches Ok((s, a)) && s is Done && a
                == PushAction::ReplaceTracks(t, ids),
            _ => false,
        },
{
    match (state, event) {
        (PushState::Start, PushEvent::ListLoaded(l)) => {
            let target = match l.get_unique_source() {
                Ok((_, Some(i))) => Some(i.id.clone()),
                Ok((_, None)) => None,
                Err(e) => return Err(e),
            };
            Ok((PushState::Authorizing(l, target), PushAction::GetAccessToken))
        },
        (PushState::Authorizing(l, Some(t)), PushEvent::Token) => {
            let rename = PushAction::RenamePlaylist(t.clone(), l.name.clone());
            Ok((PushState::Renaming(l, t), rename))
        },
        (PushState::Authorizing(l, None), PushEvent::Token) => {
            let create = PushAction::CreatePlaylist(l.name.clone());
            Ok((PushState::Creating(l), create))
        },
        (PushState::Renaming(l, t), PushEvent::Renamed) => Ok((PushState::Collecting(t), collect(l))),
        (PushState::Creating(l), PushEvent::Created(pid, links)) => {
            let url = link_for(&links, "spotify").clone();
            let id = Id { id: pid.clone(), raw_id: url };
            let mut saved = l;
            saved.mode = match saved.mode {
                ListMode::View(_) => ListMode::View(Some(id)),
                _ => ListMode::User(Some(id)),
            };
            Ok((PushState::Saving(saved, pid), PushAction::SaveList))
        },
        (PushState::Saving(l, t), PushEvent::Saved) => Ok((PushState::Collecting(t), collect(l))),
        (PushState::Collecting(t), PushEvent::ItemIds(ids)) => Ok((PushState::Done, PushAction::ReplaceTracks(t, ids))),
        _ => {
            assert(false);
            Err(Error::NotFound)
        },
    }
}

} // verus!
