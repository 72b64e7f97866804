use crate::text::str_eq;
use crate::zeroflops::{List, ListMode, Source, SourceType, Spotify};
use crate::zeroflops_wasm::{
    SpotifyKind, is_spotify_source_of, parse_setlist_source, parse_spotify_source, regex_first_capture,
    setlist_pattern, spotify_parse,
};
use vstd::prelude::*;

verus! {

/// The JSON document that serde_json reads from `text`, if it reads one.
pub uninterp spec fn json_document(text: Seq<char>) -> Option<serde_json::Value>;

/// Whether serde_json reads `text` as a JSON document.
pub open spec fn json_parses(text: Seq<char>) -> bool {
    json_document(text) is Some
}

/// `serde_json::from_str::<Value>(text)`, its error dropped. Trusted to give the
/// document that `json_document` names: a function of the text alone.
#[verifier::external_body]
fn parse_json(text: &str) -> (r: Option<serde_json::Value>)
    ensures
        r == json_document(text@),
{
    serde_json::from_str(text).ok()
}

/// One data source as the form shows it: the kind chosen and the text typed.
#[derive(Clone, Debug, PartialEq, Eq)]
pub struct SourceInput {
    pub kind: String,
    pub id: String,
}

/// The settings form of a list as the user filled it in.
#[derive(Clone, Debug, PartialEq, Eq)]
pub struct EditForm {
    pub name: String,
    pub external_id: String,
    pub query: String,
    pub favorite: bool,
    pub sources: Vec<SourceInput>,
}

/// What the settings page of a list does in answer to the user.
pub enum Msg {
    /// Nothing happened.
    Noop,
    AddSource,
    DeleteSource(usize),
    /// Save was pressed with the form as given.
    Save(EditForm),
    Delete,
    /// The user confirmed deleting the list.
    DeleteConfirmed,
    DeleteAll,
    /// The user confirmed deleting the list and its items.
    DeleteAllConfirmed,
}

/// The outside work that a step asks for.
#[derive(Debug, PartialEq, Eq)]
pub enum Action {
    Nothing,
    /// Send the list as it now stands to the server.
    UpdateList,
    /// Ask the user to confirm with this question.
    Confirm(String),
    /// Delete the list with this id, then go home.
    DeleteList(String),
    /// Delete these items, then the list with this id, then go home.
    DeleteItemsAndList(Vec<String>, String),
}

/// The settings page of a list: the key of the next source row, the list, and the
/// source rows, each with its key and the source it started with.
pub struct Edit {
    pub counter: i32,
    pub list: List,
    pub sources: Vec<(i32, Option<SourceType>)>,
}

/// Whether a source row can be saved: a Spotify or setlist.fm address that its
/// pattern reads, a JSON document, or any list id.
pub open spec fn source_input_ok(e: SourceInput) -> bool {
    if e.kind@ == "Spotify"@ {
        spotify_parse(e.id@) is Some
    } else if e.kind@ == "Custom"@ {
        json_parses(e.id@)
    } else if e.kind@ == "Setlist"@ {
        regex_first_capture(setlist_pattern(), e.id@) is Some
    } else {
        e.kind@ == "List Items"@
    }
}

/// Whether `s` is the unnamed source that the row `e` gives.
pub open spec fn is_source_of_input(s: Source, e: SourceInput) -> bool {
    &&& s.name@ == Seq::<char>::empty()
    &&& if e.kind@ == "Spotify"@ {
        s.source_type matches SourceType::Spotify(sp) && is_spotify_source_of(sp, e.id@)
    } else if e.kind@ == "Custom"@ {
        json_document(e.id@) matches Some(v) && s.source_type == SourceType::Custom(v)
    } else if e.kind@ == "Setlist"@ {
        s.source_type matches SourceType::Setlist(id) && regex_first_capture(setlist_pattern(), e.id@)
            == Some(id.id@) && id.raw_id@ == e.id@
    } else {
        s.source_type matches SourceType::ListItems(x) && x@ == e.id@
    }
}

/// The outside playlist of a user's list after saving the form: none for an empty
/// field, the playlist that the field's address names, or the old one where the
/// field names no playlist.
pub open spec fn saved_external_id(old_mode: ListMode, new_mode: ListMode, field: Seq<char>) -> bool {
    match old_mode {
        ListMode::User(ext) => new_mode matches ListMode::User(new_ext) && if field.len() == 0 {
            new_ext is None
        } else {
            match spotify_parse(field) {
                Some((SpotifyKind::Playlist, c)) => new_ext matches Some(id) && id.id@ == c && id.raw_id@
                    == field,
                _ => new_ext == ext,
            }
        },
        _ => new_mode == old_mode,
    }
}

/// Whether the keys of the source rows increase strictly and stay below the next key,
/// so that no two rows share a key.
pub open spec fn keys_ok(rows: Seq<(i32, Option<SourceType>)>, counter: i32) -> bool {
    &&& forall|i: int, j: int| 0 <= i < j < rows.len() ==> #[trigger] rows[i].0 < #[trigger] rows[j].0
    &&& forall|i: int| 0 <= i < rows.len() ==> #[trigger] rows[i].0 < counter
}

/// Adding a row and deleting one keep the keys of the rows distinct.
pub proof fn lemma_row_keys_stay_unique(rows: Seq<(i32, Option<SourceType>)>, counter: i32, k: int)
    requires
        keys_ok(rows, counter),
        counter < i32::MAX,
    ensures
        keys_ok(rows.push((counter, None)), (counter + 1) as i32),
        0 <= k < rows.len() ==> keys_ok(rows.remove(k), counter),
{
    let added = rows.push((counter, None));
    assert forall|i: int, j: int| 0 <= i < j < added.len() implies #[trigger] added[i].0 < #[trigger] added[j].0 by {
        if j == rows.len() {
            assert(rows[i].0 < counter);
        } else {
            assert(rows[i].0 < rows[j].0);
        }
    }
    if 0 <= k < rows.len() {
        let removed = rows.remove(k);
        assert forall|i: int, j: int| 0 <= i < j < removed.len() implies #[trigger] removed[i].0 < #[trigger] removed[j].0 by {
            let a = if i < k { i } else { i + 1 };
            let b = if j < k { j } else { j + 1 };
            assert(removed[i] == rows[a]);
            assert(removed[j] == rows[b]);
            assert(rows[a].0 < rows[b].0);
        }
        assert forall|i: int| 0 <= i < removed.len() implies #[trigger] removed[i].0 < counter by {
            let a = if i < k { i } else { i + 1 };
            assert(removed[i] == rows[a]);
        }
    }
}

/// The question asked before deleting a list.
pub open spec fn delete_prompt(id: Seq<char>) -> Seq<char> {
    "Delete "@ + id + "?"@
}

/// The question asked before deleting a list and its items.
pub open spec fn delete_all_prompt(id: Seq<char>) -> Seq<char> {
    "Delete all items in "@ + id + " and list?"@
}

impl Edit {
    /// The settings page of `list`: its sources move to the rows, keyed from 0.
    pub fn new(list: List) -> (r: Edit)
        requires
            list.sources@.len() <= i32::MAX,
        ensures
            r.counter == list.sources@.len(),
            r.list == (List { sources: r.list.sources, ..list }),
            r.list.sources@.len() == 0,
            r.sources@.len() == list.sources@.len(),
            keys_ok(r.sources@, r.counter),
            forall|i: int| 0 <= i < r.sources@.len() ==> #[trigger] r.sources@[i] == (i as i32, Some(list.sources@[i].source_type)),
    {
        let mut list = list;
        let mut taken: Vec<Source> = Vec::new();
        std::mem::swap(&mut taken, &mut list.sources);
        let ghost orig = taken@;
        let n = taken.len();
        let mut sources: Vec<(i32, Option<SourceType>)> = Vec::new();
        let mut i: usize = 0;
        while i < n
            invariant
                n == orig.len(),
                n <= i32::MAX,
                i <= n,
                taken@ == orig.subrange(i as int, n as int),
                sources@.len() == i,
                forall|j: int| 0 <= j < i ==> #[trigger] sources@[j] == (j as i32, Some(orig[j].source_type)),
            decreases n - i,
        {
            let s = taken.remove(0);
            assert(s == orig[i as int]);
            sources.push((i as i32, Some(s.source_type)));
            i = i + 1;
            assert(taken@ =~= orig.subrange(i as int, n as int));
        }
        Edit { counter: n as i32, list, sources }
    }
    /// Saves the form into the list: the name (not of an external list), the outside
    /// playlist (of a user's list), the query, the favorite mark, and the sources
    /// row by row until a row cannot be read. Says whether every row was read.
    fn save_form(&mut self, form: EditForm) -> (ok: bool)
        ensures
            final(self).counter == old(self).counter,
            final(self).sources == old(self).sources,
            final(self).list.id == old(self).list.id,
            final(self).list.user_id == old(self).list.user_id,
            final(self).list.iframe == old(self).list.iframe,
            final(self).list.items == old(self).list.items,
            final(self).list.public == old(self).list.public,
            final(self).list.name == if old(self).list.mode is External { old(self).list.name } else { form.name },
            saved_external_id(old(self).list.mode, final(self).list.mode, form.external_id@),
            final(self).list.query == form.query,
            final(self).list.favorite == form.favorite,
            final(self).list.sources@.len() <= form.sources@.len(),
            forall|j: int| 0 <= j < final(self).list.sources@.len() ==> source_input_ok(#[trigger] form.sources@[j])
                && is_source_of_input(final(self).list.sources@[j], form.sources@[j]),
            ok == (final(self).list.sources@.len() == form.sources@.len()),
            !ok ==> !source_input_ok(form.sources@[final(self).list.sources@.len() as int]),
    {
        let ghost given = form;
        let EditForm { name, external_id, query, favorite, sources: inputs } = form;
        match self.list.mode {
            ListMode::External => {},
            _ => {
                self.list.name = name;
            },
        }
        let new_mode = match &self.list.mode {
            ListMode::User(_) => {
                if external_id.as_str().is_empty() {
                    Some(ListMode::User(None))
                } else {
                    match parse_spotify_source(external_id) {
                        Some(Spotify::Playlist(id)) => Some(ListMode::User(Some(id))),
                        _ => None,
                    }
                }
            },
            _ => None,
        };
        match new_mode {
            Some(m) => {
                self.list.mode = m;
            },
            None => {},
        }
        self.list.query = query;
        self.list.favorite = favorite;
        self.list.sources = Vec::new();
        let ghost before = *self;
        let n = inputs.len();
        let mut k: usize = 0;
        while k < n
            invariant
                n == inputs@.len(),
                k <= n,
                self.list.sources@.len() == k,
                self.counter == before.counter,
                self.sources == before.sources,
                self.list == (List { sources: self.list.sources, ..before.list }),
                inputs == given.sources,
                given == form,
                before.counter == old(self).counter,
                before.sources == old(self).sources,
                before.list.id == old(self).list.id,
                before.list.user_id == old(self).list.user_id,
                before.list.iframe == old(self).list.iframe,
                before.list.items == old(self).list.items,
                before.list.public == old(self).list.public,
                before.list.name == if old(self).list.mode is External { old(self).list.name } else { given.name },
                saved_external_id(old(self).list.mode, before.list.mode, given.external_id@),
                before.list.query == given.query,
                before.list.favorite == given.favorite,
                forall|j: int| 0 <= j < k ==> source_input_ok(#[trigger] inputs@[j])
                    && is_source_of_input(self.list.sources@[j], inputs@[j]),
            decreases n - k,
        {
            let e = &inputs[k];
            let source_type = if str_eq(e.kind.as_str(), "Spotify") {
                match parse_spotify_source(e.id.clone()) {
                    Some(sp) => SourceType::Spotify(sp),
                    None => return false,
                }
            } else if str_eq(e.kind.as_str(), "Custom") {
                match parse_json(e.id.as_str()) {
                    Some(v) => SourceType::Custom(v),
                    None => return false,
                }
            } else if str_eq(e.kind.as_str(), "Setlist") {
                match parse_setlist_source(e.id.clone()) {
                    Some(id) => SourceType::Setlist(id),
                    None => return false,
                }
            } else if str_eq(e.kind.as_str(), "List Items") {
                SourceType::ListItems(e.id.clone())
            } else {
                return false;
            };
            self.list.sources.push(Source { source_type, name: String::new() });
            k = k + 1;
        }
        true
    }

    /// Takes one message: changes the page, says whether it must be drawn again, and
    /// names the outside work to do.
    pub fn update(&mut self, msg: Msg) -> (r: (bool, Action))
        requires
            match msg {
                Msg::AddSource => old(self).counter < i32::MAX,
                Msg::DeleteSource(i) => i < old(self).sources@.len(),
                _ => true,
            },
        ensures
            match msg {
                Msg::Noop => *final(self) == *old(self) && r == (false, Action::Nothing),
                Msg::AddSource => {
                    &&& final(self).sources@ == old(self).sources@.push((old(self).counter, None))
                    &&& final(self).counter == old(self).counter + 1
                    &&& final(self).list == old(self).list
                    &&& r == (true, Action::Nothing)
                },
                Msg::DeleteSource(i) => {
                    &&& final(self).sources@ == old(self).sources@.remove(i as int)
                    &&& final(self).counter == old(self).counter
                    &&& final(self).list == old(self).list
                    &&& r == (true, Action::Nothing)
                },
                Msg::Save(form) => {
                    &&& final(self).counter == old(self).counter
                    &&& final(self).sources == old(self).sources
                    &&& final(self).list.id == old(self).list.id
                    &&& final(self).list.user_id == old(self).list.user_id
                    &&& final(self).list.iframe == old(self).list.iframe
                    &&& final(self).list.items == old(self).list.items
                    &&& final(self).list.public == old(self).list.public
                    &&& final(self).list.name == if old(self).list.mode is External { old(self).list.name } else { form.name }
                    &&& saved_external_id(old(self).list.mode, final(self).list.mode, form.external_id@)
                    &&& final(self).list.query == form.query
                    &&& final(self).list.favorite == form.favorite
                    &&& final(self).list.sources@.len() <= form.sources@.len()
                    &&& forall|j: int| 0 <= j < final(self).list.sources@.len() ==> source_input_ok(#[trigger] form.sources@[j])
                        && is_source_of_input(final(self).list.sources@[j], form.sources@[j])
                    &&& if final(self).list.sources@.len() == form.sources@.len() {
                        r == (false, Action::UpdateList)
                    } else {
                        !source_input_ok(form.sources@[final(self).list.sources@.len() as int]) && r == (false, Action::Nothing)
                    }
                },
                Msg::Delete => {
                    &&& *final(self) == *old(self)
                    &&& !r.0
                    &&& r.1 matches Action::Confirm(p) && p@ == delete_prompt(old(self).list.id@)
                },
                Msg::DeleteConfirmed => *final(self) == *old(self) && r == (false, Action::DeleteList(old(self).list.id)),
                Msg::DeleteAll => {
                    &&& *final(self) == *old(self)
                    &&& !r.0
                    &&& r.1 matches Action::Confirm(p) && p@ == delete_all_prompt(old(self).list.id@)
                },
                Msg::DeleteAllConfirmed => {
                    &&& *final(self) == *old(self)
                    &&& !r.0
                    &&& r.1 matches Action::DeleteItemsAndList(ids, id) && id == old(self).list.id
                        && ids@.len() == old(self).list.items@.len()
                        && forall|i: int| 0 <= i < ids@.len() ==> #[trigger] ids@[i] == old(self).list.items@[i].id
                },
            },
    {
        match msg {
            Msg::Noop => (false, Action::Nothing),
            Msg::AddSource => {
                self.sources.push((self.counter, None));
                self.counter = self.counter + 1;
                (true, Action::Nothing)
            },
            Msg::DeleteSource(i) => {
                self.sources.remove(i);
                (true, Action::Nothing)
            },
            Msg::Save(form) => {
                if self.save_form(form) {
                    (false, Action::UpdateList)
                } else {
                    (false, Action::Nothing)
                }
            },
            Msg::Delete => {
                let prompt = String::from_str("Delete ").concat(self.list.id.as_str()).concat("?");
                (false, Action::Confirm(prompt))
            },
            Msg::DeleteConfirmed => (false, Action::DeleteList(self.list.id.clone())),
            Msg::DeleteAll => {
                let prompt = String::from_str("Delete all items in ").concat(self.list.id.as_str()).concat(
                    " and list?",
                );
                (false, Action::Confirm(prompt))
            },
            Msg::DeleteAllConfirmed => {
                let mut ids: Vec<String> = Vec::new();
                let mut i: usize = 0;
                while i < self.list.items.len()
                    invariant
                        i <= self.list.items@.len(),
                        ids@.len() == i,
                        forall|j: int| 0 <= j < i ==> #[trigger] ids@[j] == self.list.items@[j].id,
                    decreases self.list.items@.len() - i,
                {
                    ids.push(self.list.items[i].id.clone());
                    i = i + 1;
                }
                (false, Action::DeleteItemsAndList(ids, self.list.id.clone()))
            },
        }
    }
}

/// The name of a list's mode, as the settings page shows it.
pub fn mode_name(mode: &ListMode) -> (r: &'static str)
    ensures
        r@ == match *mode {
            ListMode::User(_) => "User"@,
            ListMode::External => "External"@,
            ListMode::View(_) => "View"@,
        },
{
    match mode {
        ListMode::User(_) => "User",
        ListMode::External => "External",
        ListMode::View(_) => "View",
    }
}

/// The option that a source row's selector starts on: Custom, Spotify, Setlist or
/// List Items, Spotify for a new row.
pub fn selected_kind(source: &Option<SourceType>) -> (r: usize)
    ensures
        r == match *source {
            Some(SourceType::Custom(_)) => 0usize,
            None => 1usize,
            Some(SourceType::Spotify(_)) => 1usize,
            Some(SourceType::Setlist(_)) => 2usize,
            Some(SourceType::ListItems(_)) => 3usize,
        },
{
    match source {
        None => 1,
        Some(SourceType::Custom(_)) => 0,
        Some(SourceType::Spotify(_)) => 1,
        Some(SourceType::Setlist(_)) => 2,
        Some(SourceType::ListItems(_)) => 3,
    }
}

} // verus!
