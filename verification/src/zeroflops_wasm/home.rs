use crate::text::str_eq;
use crate::zeroflops::List;
use crate::zeroflops_wasm::app::{ListsRoute, page_of, toggle_of};
use vstd::prelude::*;

verus! {

/// What the home page does in answer to the user and the server.
pub enum HomeMsg {
    ToggleHelp,
    /// The favorite lists arrived.
    Load(Vec<List>),
    Create,
}

/// The outside work that a step of a page of lists asks for.
#[derive(Clone, Copy, Debug, PartialEq, Eq, Structural)]
pub enum ListsAction {
    Nothing,
    /// Create a list, then open its settings.
    CreateList,
}

/// The home page: whether its help is hidden, and the favorite lists.
pub struct Home {
    pub help_collapsed: bool,
    pub lists: Vec<List>,
}

impl Home {
    /// The home page before its lists arrive: the help is hidden for a signed-in user.
    pub fn new(logged_in: bool) -> (r: Home)
        ensures
            r.help_collapsed == logged_in,
            r.lists@.len() == 0,
    {
        Home { help_collapsed: logged_in, lists: Vec::new() }
    }

    /// Takes one message: says whether the page is drawn again and what to do outside.
    pub fn update(&mut self, msg: HomeMsg) -> (r: (bool, ListsAction))
        ensures
            match msg {
                HomeMsg::ToggleHelp => final(self).help_collapsed == !old(self).help_collapsed && final(self).lists
                    == old(self).lists && r == (true, ListsAction::Nothing),
                HomeMsg::Load(lists) => final(self).lists == lists && final(self).help_collapsed == old(
                    self,
                ).help_collapsed && r == (true, ListsAction::Nothing),
                HomeMsg::Create => final(self).lists == old(self).lists && final(self).help_collapsed == old(
                    self,
                ).help_collapsed && r == (false, ListsAction::CreateList),
            },
    {
        match msg {
            HomeMsg::ToggleHelp => {
                self.help_collapsed = !self.help_collapsed;
                (true, ListsAction::Nothing)
            },
            HomeMsg::Load(lists) => {
                self.lists = lists;
                (true, ListsAction::Nothing)
            },
            HomeMsg::Create => (false, ListsAction::CreateList),
        }
    }
}

/// What the page of all lists does in answer to the user and the server.
pub enum ListsMsg {
    /// The lists arrived.
    Load(Vec<List>),
    Create,
}

/// The page of all lists.
pub struct Lists {
    pub lists: Vec<List>,
}

impl Lists {
    /// The page before its lists arrive.
    pub fn new() -> (r: Lists)
        ensures
            r.lists@.len() == 0,
    {
        Lists { lists: Vec::new() }
    }

    /// Takes one message: says whether the page is drawn again and what to do outside.
    pub fn update(&mut self, msg: ListsMsg) -> (r: (bool, ListsAction))
        ensures
            match msg {
                ListsMsg::Load(lists) => final(self).lists == lists && r == (true, ListsAction::Nothing),
                ListsMsg::Create => final(self).lists == old(self).lists && r == (false, ListsAction::CreateList),
            },
    {
        match msg {
            ListsMsg::Load(lists) => {
                self.lists = lists;
                (true, ListsAction::Nothing)
            },
            ListsMsg::Create => (false, ListsAction::CreateList),
        }
    }
}

/// What a list's card on the home page does: the user opened or closed it, or its
/// data arrived (`true` where there is any).
#[derive(Clone, Copy, Debug, PartialEq, Eq, Structural)]
pub enum WidgetMsg {
    Fetching,
    Success(bool),
}

/// The outside work that a card asks for.
#[derive(Clone, Copy, Debug, PartialEq, Eq, Structural)]
pub enum WidgetAction {
    Nothing,
    /// Run the list's query to fill the card.
    FetchData,
}

/// A list's card on the home page: whether it is closed, and whether it holds data.
#[derive(Clone, Copy, Debug, PartialEq, Eq, Structural)]
pub struct Widget {
    pub collapsed: bool,
    pub loaded: bool,
}

impl Widget {
    /// A closed card without data.
    pub fn new() -> (r: Widget)
        ensures
            r.collapsed && !r.loaded,
    {
        Widget { collapsed: true, loaded: false }
    }

    /// Takes one message: a card without data fetches it first and opens once it
    /// arrives; a card with data opens or closes.
    pub fn update(&mut self, msg: WidgetMsg) -> (r: (bool, WidgetAction))
        ensures
            match msg {
                WidgetMsg::Fetching => if old(self).loaded {
                    *final(self) == (Widget { collapsed: !old(self).collapsed, ..*old(self) }) && r == (true, WidgetAction::Nothing)
                } else {
                    *final(self) == *old(self) && r == (false, WidgetAction::FetchData)
                },
                WidgetMsg::Success(has_data) => *final(self) == (Widget { collapsed: false, loaded: has_data }) && r == (
                    true,
                    WidgetAction::Nothing,
                ),
            },
    {
        match msg {
            WidgetMsg::Fetching => if self.loaded {
                self.collapsed = !self.collapsed;
                (true, WidgetAction::Nothing)
            } else {
                (false, WidgetAction::FetchData)
            },
            WidgetMsg::Success(has_data) => {
                self.collapsed = false;
                self.loaded = has_data;
                (true, WidgetAction::Nothing)
            },
        }
    }
}

/// The names of the ways to rank a list, as its card offers them.
pub open spec fn is_ranking_name(mode: Seq<char>) -> bool {
    mode == "Random Matches"@ || mode == "Random Rounds"@ || mode == "Tournament"@ || mode == "Random Tournament"@
}

/// The page that a way of ranking opens for the list `id`, with the `mode` of its
/// query: random matches, rounds (`mode=rounds`), a tournament, or a random one
/// (`mode=random`); `None` for any other name.
pub fn ranking_route(mode: &str, id: String) -> (r: Option<(ListsRoute, Option<&'static str>)>)
    ensures
        r is Some == is_ranking_name(mode@),
        match r {
            Some((route, query)) => {
                &&& toggle_of(page_of(route, match query { Some(q) => Some(q@), None => None })) == mode@
                &&& if mode@ == "Random Matches"@ {
                    route == (ListsRoute::Match { id }) && query is None
                } else if mode@ == "Random Rounds"@ {
                    route == (ListsRoute::Match { id }) && (query matches Some(q) && q@ == "rounds"@)
                } else if mode@ == "Tournament"@ {
                    route == (ListsRoute::Tournament { id }) && query is None
                } else {
                    route == (ListsRoute::Tournament { id }) && (query matches Some(q) && q@ == "random"@)
                }
            },
            None => true,
        },
{
    proof {
        reveal_strlit("Random Matches");
        reveal_strlit("Random Rounds");
        reveal_strlit("Tournament");
        reveal_strlit("Random Tournament");
        reveal_strlit("rounds");
        reveal_strlit("random");
    }
    if str_eq(mode, "Random Matches") {
        Some((ListsRoute::Match { id }, None))
    } else if str_eq(mode, "Random Rounds") {
        Some((ListsRoute::Match { id }, Some("rounds")))
    } else if str_eq(mode, "Tournament") {
        Some((ListsRoute::Tournament { id }, None))
    } else if str_eq(mode, "Random Tournament") {
        Some((ListsRoute::Tournament { id }, Some("random")))
    } else {
        None
    }
}

} // verus!
