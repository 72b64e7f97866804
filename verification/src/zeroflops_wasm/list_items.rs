use crate::text::str_eq;
use crate::zeroflops::{ItemMetadata, List, ListMode, User, opt_text, unique_source};
use crate::zeroflops_wasm::{is_user_list, user_list};
use vstd::prelude::*;

verus! {

/// How the items of a list are shown: to look at, to rate and hide, or to delete.
#[derive(Clone, Copy, Debug, PartialEq, Eq, Structural)]
pub enum ItemMode {
    View,
    Update,
    Delete,
}

/// The rating and visibility of one item, as the form shows them.
#[derive(Clone, Copy, Debug, PartialEq, Eq, Structural)]
pub struct State {
    pub rating: Option<u64>,
    pub hidden: bool,
}

/// The state of an item before anything was loaded: no rating, not hidden.
pub open spec fn default_state() -> State {
    State { rating: None, hidden: false }
}

/// One row of the item table that the server sent: an item's id, rating and
/// visibility.
#[derive(Clone, Debug, PartialEq, Eq)]
pub struct ItemRow {
    pub id: String,
    pub rating: Option<u64>,
    pub hidden: Option<bool>,
}

/// The changes that a save sends for one item: a new rating (which may be none)
/// and a new visibility, each only where it changed.
#[derive(Clone, Copy, Debug, PartialEq, Eq, Structural)]
pub struct ItemUpdate {
    pub rating: Option<Option<u64>>,
    pub hidden: Option<bool>,
}

/// What the page of a list's items does in answer to the user and the server.
pub enum Msg {
    /// Nothing happened.
    Noop,
    /// The item table arrived (or did not).
    Load(Option<Vec<ItemRow>>),
    UpdateRating(usize, Option<u64>),
    /// Save was pressed; the hidden boxes of the form were ticked as given.
    Save(Vec<bool>),
    SaveError(String),
    HideAlert,
    SaveSuccess(Vec<(usize, ItemUpdate)>),
    Push,
    Open(usize),
    ModalBack,
    ModalForward,
    HideModal,
    Delete((String, usize)),
    DeleteSuccess(usize),
}

/// The outside work that a step asks for.
#[derive(Debug, PartialEq)]
pub enum Action {
    Nothing,
    /// Send these changes, by item position, to the server.
    SaveItems(Vec<(usize, ItemUpdate)>),
    /// Push the list to its outside playlist.
    PushList,
    /// Delete the item with this id, at this position, on the server.
    DeleteItem(String, usize),
}

/// The page of a list's items: the items, their state as last saved and as edited,
/// the message shown after a save, and the item open in the dialog.
pub struct ListItems {
    pub items: Vec<ItemMetadata>,
    pub prev_state: Option<Vec<State>>,
    pub state: Option<Vec<State>>,
    pub alert: Option<Result<String, String>>,
    pub modal: Option<usize>,
}

/// Whether `i` is the last position of `items` that holds the id `id`.
pub open spec fn is_last_with_id(items: Seq<ItemMetadata>, id: Seq<char>, i: int) -> bool {
    0 <= i < items.len() && items[i].id@ == id && forall|j: int|
        i < j < items.len() ==> #[trigger] items[j].id@ != id
}

/// Whether some item has the id `id`.
pub open spec fn has_id(items: Seq<ItemMetadata>, id: Seq<char>) -> bool {
    exists|i: int| 0 <= i < items.len() && #[trigger] items[i].id@ == id
}

/// The last position of `items` that holds the id `id`.
pub open spec fn last_with_id(items: Seq<ItemMetadata>, id: Seq<char>) -> int {
    choose|i: int| is_last_with_id(items, id, i)
}

/// The state of each item after the rows were loaded: a row sets the state of the
/// last item with its id, and a later row wins over an earlier one.
pub open spec fn loaded_state(items: Seq<ItemMetadata>, rows: Seq<ItemRow>) -> Seq<State>
    decreases rows.len(),
{
    if rows.len() == 0 {
        Seq::new(items.len(), |i: int| default_state())
    } else {
        let row = rows.last();
        loaded_state(items, rows.drop_last()).update(
            last_with_id(items, row.id@),
            State { rating: row.rating, hidden: row.hidden.unwrap() },
        )
    }
}

/// Whether the rows can be loaded: each names an item and says whether it is hidden.
pub open spec fn rows_loadable(items: Seq<ItemMetadata>, rows: Seq<ItemRow>) -> bool {
    forall|r: int| 0 <= r < rows.len() ==> has_id(items, #[trigger] rows[r].id@) && rows[r].hidden is Some
}

/// The changes to item `i`: its rating where it differs from the saved one, its
/// visibility where the ticked box differs from the shown one.
pub open spec fn item_update(prev: State, cur: State, checked: bool) -> ItemUpdate {
    ItemUpdate {
        rating: if prev.rating != cur.rating { Some(cur.rating) } else { None },
        hidden: if checked != cur.hidden { Some(checked) } else { None },
    }
}

/// Whether an update changes nothing.
pub open spec fn is_empty_update(u: ItemUpdate) -> bool {
    u.rating is None && u.hidden is None
}

/// The changes that a save sends for the first `n` items, in item order, leaving out
/// the items that did not change.
pub open spec fn save_updates(prev: Seq<State>, cur: Seq<State>, checked: Seq<bool>, n: nat) -> Seq<
    (usize, ItemUpdate),
>
    decreases n,
{
    if n == 0 {
        Seq::empty()
    } else {
        let i = n - 1;
        let u = item_update(prev[i], cur[i], checked[i]);
        if is_empty_update(u) {
            save_updates(prev, cur, checked, i as nat)
        } else {
            save_updates(prev, cur, checked, i as nat).push((i as usize, u))
        }
    }
}

/// A state with an update applied.
pub open spec fn apply_update(s: State, u: ItemUpdate) -> State {
    State {
        rating: match u.rating {
            Some(r) => r,
            None => s.rating,
        },
        hidden: match u.hidden {
            Some(h) => h,
            None => s.hidden,
        },
    }
}

/// The states with the updates applied in order.
pub open spec fn apply_updates(s: Seq<State>, updates: Seq<(usize, ItemUpdate)>) -> Seq<State>
    decreases updates.len(),
{
    if updates.len() == 0 {
        s
    } else {
        let (i, u) = updates.last();
        let t = apply_updates(s, updates.drop_last());
        t.update(i as int, apply_update(t[i as int], u))
    }
}

/// Whether every update names an item of the `n`.
pub open spec fn updates_in_range(updates: Seq<(usize, ItemUpdate)>, n: nat) -> bool {
    forall|k: int| 0 <= k < updates.len() ==> (#[trigger] updates[k]).0 < n
}

/// The item that the dialog shows after "back": the one before, or the last after
/// the first.
pub open spec fn modal_back(i: usize, n: nat) -> usize {
    if i == 0 { (n - 1) as usize } else { (i - 1) as usize }
}

/// The item that the dialog shows after "forward": the one after, or the first after
/// the last.
pub open spec fn modal_forward(i: usize, n: nat) -> usize {
    if i == n - 1 { 0 } else { (i + 1) as usize }
}

/// The text shown after a successful save.
pub open spec fn save_successful() -> Seq<char> {
    "Save successful"@
}

/// Whether the page can take the message without failing: the message names items
/// and states that exist.
pub open spec fn accepts(s: ListItems, msg: Msg) -> bool {
    match msg {
        Msg::Load(Some(rows)) => rows_loadable(s.items@, rows@),
        Msg::UpdateRating(i, _) => s.state matches Some(st) && i < st@.len(),
        Msg::Save(checked) => s.state matches Some(st) && s.prev_state matches Some(prev)
            && checked@.len() >= min(s.items@.len() as int, st@.len() as int)
            && prev@.len() >= min(s.items@.len() as int, st@.len() as int),
        Msg::SaveSuccess(updates) => s.state matches Some(st) && updates_in_range(updates@, st@.len()),
        Msg::ModalBack => s.modal is Some ==> s.items@.len() > 0,
        Msg::ModalForward => s.modal matches Some(i) ==> s.items@.len() > 0 && i < usize::MAX,
        Msg::DeleteSuccess(i) => i < s.items@.len() && (s.state matches Some(st) ==> i < st@.len()),
        _ => true,
    }
}

/// The smaller of two integers.
pub open spec fn min(a: int, b: int) -> int {
    if a <= b { a } else { b }
}

impl ListItems {
    /// The page before the item table was loaded.
    pub fn new(items: Vec<ItemMetadata>) -> (r: ListItems)
        ensures
            r.items == items,
            r.prev_state is None,
            r.state is None,
            r.alert is None,
            r.modal is None,
    {
        ListItems { items, prev_state: None, state: None, alert: None, modal: None }
    }

    /// Takes one message: changes the page, says whether it must be drawn again, and
    /// names the outside work to do.
    pub fn update(&mut self, msg: Msg) -> (r: (bool, Action))
        requires
            accepts(*old(self), msg),
        ensures
            final(self).items@ == (match msg {
                Msg::DeleteSuccess(i) => old(self).items@.remove(i as int),
                _ => old(self).items@,
            }),
            match msg {
                Msg::Noop => *final(self) == *old(self) && r == (false, Action::Nothing),
                Msg::Load(None) => *final(self) == *old(self) && r == (false, Action::Nothing),
                Msg::Load(Some(rows)) => {
                    &&& final(self).state matches Some(st) && st@ == loaded_state(old(self).items@, rows@)
                    &&& final(self).prev_state matches Some(p) && p@ == loaded_state(old(self).items@, rows@)
                    &&& final(self).alert == old(self).alert
                    &&& final(self).modal == old(self).modal
                    &&& r == (true, Action::Nothing)
                },
                Msg::UpdateRating(i, rating) => {
                    &&& old(self).state matches Some(o) && final(self).state matches Some(st)
                        && st@ == o@.update(i as int, State { rating, hidden: o@[i as int].hidden })
                    &&& final(self).prev_state == old(self).prev_state
                    &&& final(self).alert == old(self).alert
                    &&& final(self).modal == old(self).modal
                    &&& r == (true, Action::Nothing)
                },
                Msg::Save(checked) => {
                    &&& *final(self) == *old(self)
                    &&& old(self).state matches Some(st) && old(self).prev_state matches Some(prev)
                        && ({
                        let u = save_updates(prev@, st@, checked@, min(old(self).items@.len() as int, st@.len() as int) as nat);
                        if u.len() == 0 {
                            r.1 == Action::Nothing
                        } else {
                            r.1 matches Action::SaveItems(v) && v@ == u
                        }
                    })
                    &&& !r.0
                },
                Msg::SaveError(e) => {
                    &&& final(self).alert == Some(Err::<String, String>(e))
                    &&& final(self).state == old(self).state
                    &&& final(self).prev_state == old(self).prev_state
                    &&& final(self).modal == old(self).modal
                    &&& r == (true, Action::Nothing)
                },
                Msg::HideAlert => {
                    &&& final(self).alert is None
                    &&& final(self).state == old(self).state
                    &&& final(self).prev_state == old(self).prev_state
                    &&& final(self).modal == old(self).modal
                    &&& r == (true, Action::Nothing)
                },
                Msg::SaveSuccess(updates) => {
                    &&& old(self).state matches Some(o) && final(self).state matches Some(st)
                        && final(self).prev_state matches Some(p)
                        && st@ == apply_updates(o@, updates@) && p@ == st@
                    &&& final(self).alert matches Some(Ok(m)) && m@ == save_successful()
                    &&& final(self).modal == old(self).modal
                    &&& r == (true, Action::Nothing)
                },
                Msg::Push => *final(self) == *old(self) && r == (false, Action::PushList),
                Msg::Open(i) => {
                    &&& final(self).modal == Some(i)
                    &&& final(self).state == old(self).state
                    &&& final(self).prev_state == old(self).prev_state
                    &&& final(self).alert == old(self).alert
                    &&& r == (true, Action::Nothing)
                },
                Msg::ModalBack => {
                    &&& final(self).modal == (match old(self).modal {
                        Some(i) => Some(modal_back(i, old(self).items@.len())),
                        None => None,
                    })
                    &&& final(self).state == old(self).state
                    &&& final(self).prev_state == old(self).prev_state
                    &&& final(self).alert == old(self).alert
                    &&& r == (true, Action::Nothing)
                },
                Msg::ModalForward => {
                    &&& final(self).modal == (match old(self).modal {
                        Some(i) => Some(modal_forward(i, old(self).items@.len())),
                        None => None,
                    })
                    &&& final(self).state == old(self).state
                    &&& final(self).prev_state == old(self).prev_state
                    &&& final(self).alert == old(self).alert
                    &&& r == (true, Action::Nothing)
                },
                Msg::HideModal => {
                    &&& final(self).modal is None
                    &&& final(self).state == old(self).state
                    &&& final(self).prev_state == old(self).prev_state
                    &&& final(self).alert == old(self).alert
                    &&& r == (true, Action::Nothing)
                },
                Msg::Delete((id, i)) => *final(self) == *old(self) && r == (false, Action::DeleteItem(id, i)),
                Msg::DeleteSuccess(i) => {
                    &&& (match old(self).state {
                        Some(o) => final(self).state matches Some(st) && st@ == o@.remove(i as int),
                        None => final(self).state is None,
                    })
                    &&& final(self).prev_state == old(self).prev_state
                    &&& final(self).alert == old(self).alert
                    &&& final(self).modal == old(self).modal
                    &&& r == (true, Action::Nothing)
                },
            },
    {
        match msg {
            Msg::Noop => (false, Action::Nothing),
            Msg::Load(rows) => match rows {
                None => (false, Action::Nothing),
                Some(rows) => {
                    let state = load_state(&self.items, &rows);
                    self.prev_state = Some(copy_states(&state));
                    self.state = Some(state);
                    (true, Action::Nothing)
                },
            },
            Msg::UpdateRating(i, rating) => {
                let mut st = self.state.take().unwrap();
                let hidden = st[i].hidden;
                st.set(i, State { rating, hidden });
                self.state = Some(st);
                (true, Action::Nothing)
            },
            Msg::Save(checked) => {
                let updates = self.save_items(&checked);
                if updates.len() == 0 {
                    (false, Action::Nothing)
                } else {
                    (false, Action::SaveItems(updates))
                }
            },
            Msg::SaveError(e) => {
                self.alert = Some(Err(e));
                (true, Action::Nothing)
            },
            Msg::HideAlert => {
                self.alert = None;
                (true, Action::Nothing)
            },
            Msg::SaveSuccess(updates) => {
                let mut st = self.state.take().unwrap();
                apply_item_updates(&mut st, &updates);
                self.prev_state = Some(copy_states(&st));
                self.state = Some(st);
                self.alert = Some(Ok(String::from_str("Save successful")));
                (true, Action::Nothing)
            },
            Msg::Push => (false, Action::PushList),
            Msg::Open(item) => {
                self.modal = Some(item);
                (true, Action::Nothing)
            },
            Msg::ModalBack => {
                let n = self.items.len();
                self.modal = match self.modal {
                    Some(i) => Some(if i == 0 { n - 1 } else { i - 1 }),
                    None => None,
                };
                (true, Action::Nothing)
            },
            Msg::ModalForward => {
                let n = self.items.len();
                self.modal = match self.modal {
                    Some(i) => Some(if i == n - 1 { 0 } else { i + 1 }),
                    None => None,
                };
                (true, Action::Nothing)
            },
            Msg::HideModal => {
                self.modal = None;
                (true, Action::Nothing)
            },
            Msg::Delete((id, i)) => (false, Action::DeleteItem(id, i)),
            Msg::DeleteSuccess(i) => {
                self.items.remove(i);
                match self.state.take() {
                    Some(mut st) => {
                        st.remove(i);
                        self.state = Some(st);
                    },
                    None => {},
                }
                (true, Action::Nothing)
            },
        }
    }

    /// The changes that pressing save sends, given the ticked hidden boxes.
    fn save_items(&self, checked: &Vec<bool>) -> (r: Vec<(usize, ItemUpdate)>)
        requires
            self.state matches Some(st) && self.prev_state matches Some(prev)
                && checked@.len() >= min(self.items@.len() as int, st@.len() as int)
                && prev@.len() >= min(self.items@.len() as int, st@.len() as int),
        ensures
            self.state matches Some(st) && self.prev_state matches Some(prev)
                && r@ == save_updates(prev@, st@, checked@, min(self.items@.len() as int, st@.len() as int) as nat),
    {
        let st = self.state.as_ref().unwrap();
        let prev = self.prev_state.as_ref().unwrap();
        let n = if self.items.len() <= st.len() { self.items.len() } else { st.len() };
        let mut updates: Vec<(usize, ItemUpdate)> = Vec::new();
        let mut i: usize = 0;
        while i < n
            invariant
                n <= st@.len(),
                n <= prev@.len(),
                n <= checked@.len(),
                i <= n,
                updates@ == save_updates(prev@, st@, checked@, i as nat),
            decreases n - i,
        {
            let cur = st[i];
            let old_rating = prev[i].rating;
            let rating = if old_rating != cur.rating { Some(cur.rating) } else { None };
            let hidden = if checked[i] != cur.hidden { Some(checked[i]) } else { None };
            let u = ItemUpdate { rating, hidden };
            assert(u == item_update(prev@[i as int], st@[i as int], checked@[i as int]));
            if u.rating.is_some() || u.hidden.is_some() {
                updates.push((i, u));
            }
            i = i + 1;
        }
        updates
    }
}

/// The last position of `items` with the id `id`.
fn last_index_with_id(items: &Vec<ItemMetadata>, id: &str) -> (r: usize)
    requires
        has_id(items@, id@),
    ensures
        is_last_with_id(items@, id@, r as int),
        r as int == last_with_id(items@, id@),
{
    let mut k: usize = items.len();
    while k > 0
        invariant
            k <= items@.len(),
            has_id(items@, id@),
            forall|j: int| k <= j < items@.len() ==> #[trigger] items@[j].id@ != id@,
        decreases k,
    {
        if str_eq(items[k - 1].id.as_str(), id) {
            proof {
                lemma_last_with_id_unique(items@, id@, (k - 1) as int);
            }
            return k - 1;
        }
        k = k - 1;
    }
    proof {
        let w = choose|w: int| 0 <= w < items@.len() && #[trigger] items@[w].id@ == id@;
        assert(items@[w].id@ != id@);
    }
    0
}

/// The last position with an id is the one that `last_with_id` names.
pub proof fn lemma_last_with_id_unique(items: Seq<ItemMetadata>, id: Seq<char>, i: int)
    requires
        is_last_with_id(items, id, i),
    ensures
        last_with_id(items, id) == i,
{
    let c = last_with_id(items, id);
    assert(is_last_with_id(items, id, c));
    if c < i {
        assert(items[i].id@ != id);
    } else if i < c {
        assert(items[c].id@ != id);
    }
}

/// The state of each item after loading the rows (see `loaded_state`).
fn load_state(items: &Vec<ItemMetadata>, rows: &Vec<ItemRow>) -> (r: Vec<State>)
    requires
        rows_loadable(items@, rows@),
    ensures
        r@ == loaded_state(items@, rows@),
{
    let mut state: Vec<State> = Vec::new();
    let n = items.len();
    while state.len() < n
        invariant
            n == items@.len(),
            state@.len() <= n,
            forall|j: int| 0 <= j < state@.len() ==> state@[j] == default_state(),
        decreases n - state@.len(),
    {
        state.push(State { rating: None, hidden: false });
    }
    assert(state@ =~= loaded_state(items@, rows@.take(0)));
    let mut r: usize = 0;
    while r < rows.len()
        invariant
            n == items@.len(),
            r <= rows@.len(),
            rows_loadable(items@, rows@),
            state@ == loaded_state(items@, rows@.take(r as int)),
            state@.len() == n,
        decreases rows.len() - r,
    {
        assert(has_id(items@, rows@[r as int].id@));
        let idx = last_index_with_id(items, rows[r].id.as_str());
        let hidden = rows[r].hidden.unwrap();
        proof {
            assert(rows@.take(r + 1).drop_last() =~= rows@.take(r as int));
            lemma_loaded_state_len(items@, rows@.take(r as int));
        }
        state.set(idx, State { rating: rows[r].rating, hidden });
        r = r + 1;
    }
    assert(rows@.take(rows@.len() as int) =~= rows@);
    state
}

/// Loading keeps one state per item.
pub proof fn lemma_loaded_state_len(items: Seq<ItemMetadata>, rows: Seq<ItemRow>)
    requires
        rows_loadable(items, rows),
    ensures
        loaded_state(items, rows).len() == items.len(),
    decreases rows.len(),
{
    if rows.len() > 0 {
        let rest = rows.drop_last();
        assert forall|r: int| 0 <= r < rest.len() implies has_id(items, #[trigger] rest[r].id@)
            && rest[r].hidden is Some by {
            assert(rest[r] == rows[r]);
        }
        lemma_loaded_state_len(items, rest);
        assert(has_id(items, rows[rows.len() - 1].id@));
        lemma_has_last_with_id(items, rows.last().id@);
    }
}

/// An id that some item has has a last position.
pub proof fn lemma_has_last_with_id(items: Seq<ItemMetadata>, id: Seq<char>)
    requires
        has_id(items, id),
    ensures
        is_last_with_id(items, id, last_with_id(items, id)),
    decreases items.len(),
{
    let n = items.len() - 1;
    if items[n].id@ == id {
        assert(is_last_with_id(items, id, n));
    } else {
        let rest = items.drop_last();
        let w = choose|w: int| 0 <= w < items.len() && #[trigger] items[w].id@ == id;
        assert(rest[w].id@ == id);
        lemma_has_last_with_id(rest, id);
        let i = last_with_id(rest, id);
        assert forall|j: int| i < j < items.len() implies #[trigger] items[j].id@ != id by {
            if j < n {
                assert(rest[j] == items[j]);
            }
        }
        assert(is_last_with_id(items, id, i));
    }
}

/// A copy of the states.
fn copy_states(v: &Vec<State>) -> (r: Vec<State>)
    ensures
        r@ == v@,
{
    let mut r: Vec<State> = Vec::new();
    let mut i: usize = 0;
    while i < v.len()
        invariant
            i <= v@.len(),
            r@ == v@.take(i as int),
        decreases v.len() - i,
    {
        r.push(v[i]);
        i = i + 1;
        assert(r@ =~= v@.take(i as int));
    }
    assert(v@.take(v@.len() as int) =~= v@);
    r
}

/// Applies the updates in order (see `apply_updates`).
fn apply_item_updates(st: &mut Vec<State>, updates: &Vec<(usize, ItemUpdate)>)
    requires
        updates_in_range(updates@, old(st)@.len()),
    ensures
        final(st)@ == apply_updates(old(st)@, updates@),
{
    let mut k: usize = 0;
    while k < updates.len()
        invariant
            k <= updates@.len(),
            updates_in_range(updates@, old(st)@.len()),
            st@ == apply_updates(old(st)@, updates@.take(k as int)),
            st@.len() == old(st)@.len(),
        decreases updates.len() - k,
    {
        let (i, u) = updates[k];
        assert(updates@[k as int].0 < old(st)@.len());
        proof {
            assert(updates@.take(k + 1).drop_last() =~= updates@.take(k as int));
        }
        let s = st[i];
        let rating = match u.rating {
            Some(r) => r,
            None => s.rating,
        };
        let hidden = match u.hidden {
            Some(h) => h,
            None => s.hidden,
        };
        st.set(i, State { rating, hidden });
        k = k + 1;
    }
    assert(updates@.take(updates@.len() as int) =~= updates@);
}

/// Stepping the dialog forward and then back, or back and then forward, shows the
/// same item again, and both steps stay among the items.
pub proof fn lemma_modal_steps_undo(i: usize, n: nat)
    requires
        i < n,
        n <= usize::MAX,
    ensures
        modal_forward(i, n) < n,
        modal_back(i, n) < n,
        modal_back(modal_forward(i, n), n) == i,
        modal_forward(modal_back(i, n), n) == i,
{
}

/// After the server accepted a save, the page holds what the form showed: each
/// saved item keeps its rating and takes the ticked visibility, and the items
/// beyond those that were compared keep their state.
pub proof fn lemma_saved_state_matches_form(prev: Seq<State>, cur: Seq<State>, checked: Seq<bool>, n: nat)
    requires
        n <= cur.len(),
        n <= prev.len(),
        n <= checked.len(),
        n <= usize::MAX,
    ensures
        updates_in_range(save_updates(prev, cur, checked, n), cur.len()),
        apply_updates(cur, save_updates(prev, cur, checked, n)).len() == cur.len(),
        forall|i: int| 0 <= i < cur.len() ==> #[trigger] apply_updates(cur, save_updates(prev, cur, checked, n))[i]
            == if i < n { State { rating: cur[i].rating, hidden: checked[i] } } else { cur[i] },
    decreases n,
{
    if n > 0 {
        let m = (n - 1) as nat;
        lemma_saved_state_matches_form(prev, cur, checked, m);
        lemma_save_updates_below(prev, cur, checked, m);
        let before = save_updates(prev, cur, checked, m);
        let t = apply_updates(cur, before);
        assert(t[m as int] == cur[m as int]);
        let u = item_update(prev[m as int], cur[m as int], checked[m as int]);
        if !is_empty_update(u) {
            let all = before.push((m as usize, u));
            assert(all == save_updates(prev, cur, checked, n));
            assert(all.drop_last() =~= before);
            assert((m as usize) as int == m);
            assert(apply_updates(cur, all) == t.update(m as int, apply_update(t[m as int], u)));
            assert(apply_update(t[m as int], u) == State { rating: cur[m as int].rating, hidden: checked[m as int] });
            assert forall|k: int| 0 <= k < all.len() implies (#[trigger] all[k]).0 < cur.len() by {
                if k < before.len() {
                    assert(all[k] == before[k]);
                }
            }
        } else {
            assert(before == save_updates(prev, cur, checked, n));
            assert(checked[m as int] == cur[m as int].hidden);
        }
    }
}

/// The changes for the first `n` items name only those items.
pub proof fn lemma_save_updates_below(prev: Seq<State>, cur: Seq<State>, checked: Seq<bool>, n: nat)
    requires
        n <= usize::MAX,
    ensures
        updates_in_range(save_updates(prev, cur, checked, n), n),
    decreases n,
{
    if n > 0 {
        let m = (n - 1) as nat;
        lemma_save_updates_below(prev, cur, checked, m);
        let before = save_updates(prev, cur, checked, m);
        let u = item_update(prev[m as int], cur[m as int], checked[m as int]);
        if !is_empty_update(u) {
            let all = before.push((m as usize, u));
            assert forall|k: int| 0 <= k < all.len() implies (#[trigger] all[k]).0 < n by {
                if k < before.len() {
                    assert(all[k] == before[k]);
                }
            }
        }
    }
}

/// Once saved, a page whose form shows what it holds has nothing to save.
pub proof fn lemma_nothing_left_to_save(st: Seq<State>, checked: Seq<bool>, n: nat)
    requires
        n <= st.len(),
        n <= checked.len(),
        forall|i: int| 0 <= i < n ==> #[trigger] checked[i] == st[i].hidden,
    ensures
        save_updates(st, st, checked, n).len() == 0,
    decreases n,
{
    if n > 0 {
        lemma_nothing_left_to_save(st, checked, (n - 1) as nat);
        assert(checked[n - 1] == st[n - 1].hidden);
    }
}

/// The styles of the item form and of its scrolled grid for a way of showing items.
pub fn grid_styles(mode: ItemMode) -> (r: (&'static str, &'static str))
    ensures
        match mode {
            ItemMode::View => r.0@ == ""@ && r.1@ == "max-height: 800px"@,
            ItemMode::Update => r.0@ == "grid-template-columns: auto max-content max-content"@ && r.1@
                == "max-height: 800px; grid-template-columns: subgrid; grid-column: span 3"@,
            ItemMode::Delete => r.0@ == "grid-template-columns: auto max-content"@ && r.1@
                == "max-height: 800px; grid-template-columns: subgrid; grid-column: span 2"@,
        },
{
    match mode {
        ItemMode::View => ("", "max-height: 800px"),
        ItemMode::Update => (
            "grid-template-columns: auto max-content max-content",
            "max-height: 800px; grid-template-columns: subgrid; grid-column: span 3",
        ),
        ItemMode::Delete => (
            "grid-template-columns: auto max-content",
            "max-height: 800px; grid-template-columns: subgrid; grid-column: span 2",
        ),
    }
}

/// Whether the save, delete and rating controls are disabled: nobody is signed in, or
/// the list is not the signed-in user's (see `is_user_list`).
pub fn controls_disabled(user: &Option<User>, list: &List) -> (r: bool)
    ensures
        r == (user is None || !is_user_list(*list, *user)),
{
    user.is_none() || !user_list(list, user)
}

/// Whether the push button shows: a list filled from outside is never pushed.
pub fn show_push(list: &List) -> (r: bool)
    ensures
        r == !(list.mode is External),
{
    match list.mode {
        ListMode::External => false,
        _ => true,
    }
}

/// Whether the list can be pushed: a user with a Spotify account is signed in and the
/// list's one origin is Spotify.
pub open spec fn can_push(list: List, user: Option<User>) -> bool {
    user matches Some(u) && u.spotify_user is Some && (unique_source(list) matches Ok((Some(s), _)) && s == "spotify"@)
}

/// Whether the push button is enabled (see `can_push`).
pub fn push_available(list: &List, user: &Option<User>) -> (r: bool)
    ensures
        r == can_push(*list, *user),
{
    match user {
        Some(u) => match list.get_unique_source() {
            Ok((Some(source), _)) => str_eq(source, "spotify") && u.spotify_user.is_some(),
            _ => false,
        },
        None => false,
    }
}

} // verus!
