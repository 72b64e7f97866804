use crate::text::str_eq;
use crate::topbops::{ItemMetadata, List};
use crate::topbops_wasm::random::{positions, shuffled_positions};
use crate::topbops_wasm::tournament::{
    TournamentBracket, exp2, same_shape, is_enabled, items_below, laid_out, lemma_items_below_same_shape,
    lemma_laid_out_items_below,
};
use vstd::prelude::*;

verus! {

/// The list whose tournament a page shows.
#[derive(Clone, Debug, PartialEq, Eq)]
pub struct TournamentProps {
    pub id: String,
}

/// Whether the page shows the bracket or one match at a time.
#[derive(Clone, Copy, Debug, PartialEq, Eq, Structural)]
pub enum TournamentState {
    Tournament,
    Match,
}

/// Whether the results are shown as a bracket or as a ranked list.
#[derive(Clone, Copy, Debug, PartialEq, Eq, Structural)]
pub enum ViewState {
    Tournament,
    List,
}

/// A loaded tournament: its title, how it is shown, the list, the ranks that the
/// items had before, and the bracket of item positions.
pub struct TournamentFields {
    pub title: String,
    pub state: TournamentState,
    pub view_state: ViewState,
    pub list: List,
    pub previous_ranks: Vec<(String, Option<i32>)>,
    pub bracket: TournamentBracket<usize>,
}

/// The page while the list is fetched, and once it is loaded.
pub enum ComponentState {
    Fetching,
    Success(TournamentFields),
}

/// What the tournament page does in answer to the user and the server.
pub enum Msg {
    /// The list arrived; `true` for a tournament in random order.
    Load(bool, List),
    /// The item at this node of the bracket won its match.
    Update(usize),
    Toggle,
    /// The view selector now reads this, if it could be read.
    SelectView(Option<String>),
    Reset,
}

/// The outside work that a step asks for.
#[derive(Debug, PartialEq, Eq)]
pub enum Action {
    Nothing,
    /// Record that the item with the first id beat the one with the second.
    UpdateStats(String, String),
}

/// The tournament page of a list.
pub struct Tournament {
    pub state: ComponentState,
}

/// Whether item `a` is seeded before item `b`: a higher score first, and on equal
/// scores the one that comes first in the list.
pub open spec fn seeded_before(items: Seq<ItemMetadata>, a: usize, b: usize) -> bool {
    items[a as int].score > items[b as int].score || (items[a as int].score == items[b as int].score && a < b)
}

/// Whether `order` lists every item position once, best seed first.
pub open spec fn is_seed_order(items: Seq<ItemMetadata>, order: Seq<usize>) -> bool {
    &&& order.len() == items.len()
    &&& forall|i: int| 0 <= i < order.len() ==> #[trigger] order[i] < items.len()
    &&& forall|i: int, j: int| 0 <= i < j < order.len() ==> seeded_before(items, #[trigger] order[i], #[trigger] order[j])
}

/// Whether `order` lists every item position once, in any order.
pub open spec fn is_any_order(n: nat, order: Seq<usize>) -> bool {
    order.to_multiset() == positions(n).to_multiset()
}

/// The item positions, best seed first (see `is_seed_order`): a stable insertion of
/// each position after those that are seeded before it.
fn seed_order_of(items: &Vec<ItemMetadata>) -> (r: Vec<usize>)
    ensures
        is_seed_order(items@, r@),
{
    let n = items.len();
    let mut order: Vec<usize> = Vec::new();
    let mut k: usize = 0;
    while k < n
        invariant
            n == items@.len(),
            k <= n,
            order@.len() == k,
            forall|i: int| 0 <= i < order@.len() ==> #[trigger] order@[i] < k,
            forall|i: int, j: int| 0 <= i < j < order@.len() ==> seeded_before(items@, #[trigger] order@[i], #[trigger] order@[j]),
        decreases n - k,
    {
        let score = items[k].score;
        let mut p: usize = 0;
        while p < order.len() && items[order[p]].score >= score
            invariant
                n == items@.len(),
                k < n,
                p <= order@.len(),
                forall|i: int| 0 <= i < order@.len() ==> #[trigger] order@[i] < k,
                forall|i: int| 0 <= i < p ==> items@[#[trigger] order@[i] as int].score >= score,
            decreases order@.len() - p,
        {
            p = p + 1;
        }
        let ghost old_order = order@;
        proof {
            assert forall|j: int| p <= j < old_order.len() implies items@[#[trigger] old_order[j] as int].score < score by {
                if j > p {
                    assert(seeded_before(items@, old_order[p as int], old_order[j]));
                }
            }
        }
        order.insert(p, k);
        proof {
            assert forall|i: int, j: int| 0 <= i < j < order@.len() implies seeded_before(
                items@,
                #[trigger] order@[i],
                #[trigger] order@[j],
            ) by {
                if j < p {
                    assert(order@[i] == old_order[i] && order@[j] == old_order[j]);
                } else if j == p {
                    assert(order@[i] == old_order[i]);
                } else if i < p {
                    assert(order@[i] == old_order[i] && order@[j] == old_order[j - 1]);
                } else if i == p {
                    assert(order@[j] == old_order[j - 1]);
                } else {
                    assert(order@[i] == old_order[i - 1] && order@[j] == old_order[j - 1]);
                }
            }
        }
        k = k + 1;
    }
    order
}

/// Whether the fields keep what the page needs: a well-formed bracket whose
/// entrants, now and at the start, are positions of the list's items.
pub open spec fn fields_ok(f: TournamentFields) -> bool {
    &&& f.bracket.well_formed()
    &&& items_below(f.bracket.data@, f.list.items@.len())
    &&& items_below(f.bracket.initial_data@, f.list.items@.len())
}

/// Whether the page is ready for the message: the list it loads has between one and
/// 2^29 items, none scored at the lowest `i32`; the node it updates exists and is not
/// the final winner's slot; the view it selects is one of the two.
pub open spec fn accepts(s: ComponentState, msg: Msg) -> bool {
    match s {
        ComponentState::Fetching => msg matches Msg::Load(_, list) && 1 <= list.items@.len() <= 0x2000_0000
            && forall|i: int| 0 <= i < list.items@.len() ==> #[trigger] list.items@[i].score > i32::MIN,
        ComponentState::Success(f) => fields_ok(f) && match msg {
            Msg::Load(..) => false,
            Msg::Update(i) => i < f.bracket.data@.len() && (is_enabled(f.bracket.data@[i as int])
                ==> f.bracket.data@[i as int]->0.pair != usize::MAX),
            Msg::SelectView(Some(v)) => v@ == "Tournament View"@ || v@ == "List View"@,
            _ => true,
        },
    }
}

/// The title of a tournament of the list called `name`.
pub open spec fn tournament_title(name: Seq<char>, random: bool) -> Seq<char> {
    name + if random { " - Random Tournament"@ } else { " - Tournament"@ }
}

/// Whether `f` holds the tournament of `list` with its entrants laid out in `order`.
pub open spec fn is_loaded(f: TournamentFields, random: bool, list: List, order: Seq<usize>) -> bool {
    &&& fields_ok(f)
    &&& f.title@ == tournament_title(list.name@, random)
    &&& f.state == TournamentState::Tournament
    &&& f.view_state == ViewState::Tournament
    &&& f.list == list
    &&& f.previous_ranks@.len() == list.items@.len()
    &&& forall|i: int| 0 <= i < list.items@.len() ==> #[trigger] f.previous_ranks@[i] == (list.items@[i].id, list.items@[i].rank)
    &&& f.bracket.data@.len() == exp2(f.bracket.tree_depth() + 1) - 1
    &&& forall|x: int| 0 <= x < f.bracket.data@.len() ==> laid_out(#[trigger] f.bracket.data@[x], order, usize::MAX, f.bracket.tree_depth(), x as nat)
}

/// The loaded tournament of `list`, its entrants laid out in `order`.
pub fn load_fields(random: bool, list: List, order: Vec<usize>) -> (r: TournamentFields)
    requires
        1 <= order@.len() <= 0x2000_0000,
        forall|i: int| 0 <= i < order@.len() ==> #[trigger] order@[i] < list.items@.len(),
    ensures
        is_loaded(r, random, list, order@),
{
    let title = if random {
        list.name.clone().concat(" - Random Tournament")
    } else {
        list.name.clone().concat(" - Tournament")
    };
    let mut previous_ranks: Vec<(String, Option<i32>)> = Vec::new();
    let mut i: usize = 0;
    while i < list.items.len()
        invariant
            i <= list.items@.len(),
            previous_ranks@.len() == i,
            forall|j: int| 0 <= j < i ==> #[trigger] previous_ranks@[j] == (list.items@[j].id, list.items@[j].rank),
        decreases list.items.len() - i,
    {
        previous_ranks.push((list.items[i].id.clone(), list.items[i].rank));
        i = i + 1;
    }
    let ghost entrants = order@;
    let bracket = TournamentBracket::new(order, usize::MAX);
    proof {
        lemma_laid_out_items_below(bracket.data@, entrants, bracket.tree_depth(), list.items@.len());
        lemma_items_below_same_shape(bracket.data@, bracket.initial_data@, list.items@.len());
    }
    TournamentFields {
        title,
        state: TournamentState::Tournament,
        view_state: ViewState::Tournament,
        list,
        previous_ranks,
        bracket,
    }
}

impl Tournament {
    /// The page while its list is fetched.
    pub fn new() -> (r: Tournament)
        ensures
            r.state is Fetching,
    {
        Tournament { state: ComponentState::Fetching }
    }

    /// Takes one message: changes the page and names the outside work to do. The page
    /// is always drawn again.
    pub fn update(&mut self, msg: Msg) -> (r: (bool, Action))
        requires
            accepts(old(self).state, msg),
        ensures
            r.0,
            match msg {
                Msg::Load(random, list) => final(self).state matches ComponentState::Success(f) && r.1 == Action::Nothing
                    && exists|order: Seq<usize>| #![trigger is_loaded(f, random, list, order)]
                        is_loaded(f, random, list, order) && if random {
                        is_any_order(list.items@.len(), order)
                    } else {
                        is_seed_order(list.items@, order)
                    },
                Msg::Update(i) => old(self).state matches ComponentState::Success(o) && final(self).state matches ComponentState::Success(f)
                    && fields_ok(f) && f.title == o.title && f.state == o.state && f.view_state == o.view_state
                    && f.previous_ranks == o.previous_ranks && f.list.id == o.list.id && f.list.name == o.list.name
                    && f.list.items@.len() == o.list.items@.len() && match r.1 {
                        Action::UpdateStats(w, l) => exists|wi: usize, li: usize| wi < f.list.items@.len() && li < f.list.items@.len()
                            && w == f.list.items@[wi as int].id && l == f.list.items@[li as int].id
                            && f.list.items@[wi as int].id == o.list.items@[wi as int].id
                            && f.list.items@[li as int].id == o.list.items@[li as int].id,
                        Action::Nothing => true,
                    },
                Msg::Toggle => old(self).state matches ComponentState::Success(o) && final(self).state matches ComponentState::Success(f)
                    && f.state == (if o.state == TournamentState::Tournament { TournamentState::Match } else { TournamentState::Tournament })
                    && f.view_state == o.view_state && f.title == o.title && f.list == o.list && f.bracket == o.bracket
                    && f.previous_ranks == o.previous_ranks && r.1 == Action::Nothing,
                Msg::SelectView(v) => old(self).state matches ComponentState::Success(o) && final(self).state matches ComponentState::Success(f)
                    && f.view_state == (match v {
                        Some(s) => if s@ == "List View"@ { ViewState::List } else { ViewState::Tournament },
                        None => ViewState::Tournament,
                    }) && f.state == o.state && f.title == o.title && f.list == o.list && f.bracket == o.bracket
                    && f.previous_ranks == o.previous_ranks && r.1 == Action::Nothing,
                Msg::Reset => old(self).state matches ComponentState::Success(o) && final(self).state matches ComponentState::Success(f)
                    && fields_ok(f) && same_shape(o.bracket.start_data(), f.bracket.data@)
                    && f.bracket.start_data() == o.bracket.start_data()
                    && f.bracket.results() == Seq::new(o.bracket.finished@.len(), |i: int| None::<usize>)
                    && f.bracket.next_place() == o.bracket.finished@.len() - 1
                    && f.state == o.state && f.view_state == o.view_state && f.title == o.title && f.list == o.list
                    && f.previous_ranks == o.previous_ranks && r.1 == Action::Nothing,
            },
    {
        let mut state = ComponentState::Fetching;
        std::mem::swap(&mut state, &mut self.state);
        match state {
            ComponentState::Fetching => {
                match msg {
                    Msg::Load(random, list) => {
                        let order = if random {
                            shuffled_positions(list.items.len())
                        } else {
                            seed_order_of(&list.items)
                        };
                        let ghost o = order@;
                        let fields = load_fields(random, list, order);
                        assert(is_loaded(fields, random, list, o));
                        self.state = ComponentState::Success(fields);
                        (true, Action::Nothing)
                    },
                    _ => (true, Action::Nothing),
                }
            },
            ComponentState::Success(mut fields) => {
                let action = match msg {
                    Msg::Update(i) => {
                        let ghost before = fields.list.items@;
                        match fields.bracket.update(i, &mut fields.list.items) {
                            Some((win, lose)) => {
                                assert(fields.list.items@[win as int].id == before[win as int].id);
                                assert(fields.list.items@[lose as int].id == before[lose as int].id);
                                Action::UpdateStats(
                                    fields.list.items[win].id.clone(),
                                    fields.list.items[lose].id.clone(),
                                )
                            },
                            None => Action::Nothing,
                        }
                    },
                    Msg::Toggle => {
                        fields.state = match fields.state {
                            TournamentState::Tournament => TournamentState::Match,
                            TournamentState::Match => TournamentState::Tournament,
                        };
                        Action::Nothing
                    },
                    Msg::SelectView(v) => {
                        fields.view_state = match v {
                            Some(s) => if str_eq(s.as_str(), "List View") {
                                ViewState::List
                            } else {
                                ViewState::Tournament
                            },
                            None => ViewState::Tournament,
                        };
                        Action::Nothing
                    },
                    Msg::Reset => {
                        fields.bracket.reset();
                        proof {
                            lemma_items_below_same_shape(
                                fields.bracket.initial_data@,
                                fields.bracket.data@,
                                fields.list.items@.len(),
                            );
                        }
                        Action::Nothing
                    },
                    Msg::Load(..) => Action::Nothing,
                };
                self.state = ComponentState::Success(fields);
                (true, action)
            },
        }
    }
}

} // verus!
