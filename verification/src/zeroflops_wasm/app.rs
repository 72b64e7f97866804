use crate::text::str_eq;
use crate::zeroflops::{List, ListMode, User};
use crate::zeroflops_wasm::list_items::ItemMode;
use vstd::prelude::*;

verus! {

/// The pages of a list.
#[derive(Clone, Copy, Debug, PartialEq, Eq, Structural)]
pub enum ListPage {
    View,
    List,
    Edit,
    RandomMatches,
    RandomRounds,
    Tournament,
    RandomTournament,
}

/// What the frame of the application does in answer to the user and the server.
pub enum Msg {
    /// Nobody is signed in; the demo is shown.
    Demo,
    /// The signed-in user arrived.
    Success(User),
    Sidebar,
    HideSidebar,
    Login,
    HideLogin,
    Dropdown,
    ResetDropdown,
    ListDropdown,
    IntegrationsDropdown,
}

/// The frame of the application: whether the user is known, who it is, and which
/// of the side bar, the log-in dialog and the three menus are open.
pub struct App {
    pub user_loaded: bool,
    pub user: Option<User>,
    pub sidebar: bool,
    pub login: bool,
    pub dropdown: bool,
    pub list_dropdown: bool,
    pub integrations_dropdown: bool,
}

impl App {
    /// The frame before the user is known: everything closed.
    pub fn new() -> (r: App)
        ensures
            !r.user_loaded,
            r.user is None,
            !r.sidebar,
            !r.login,
            !r.dropdown,
            !r.list_dropdown,
            !r.integrations_dropdown,
    {
        App {
            user_loaded: false,
            user: None,
            sidebar: false,
            login: false,
            dropdown: false,
            list_dropdown: false,
            integrations_dropdown: false,
        }
    }

    /// Takes one message; the frame is always drawn again.
    pub fn update(&mut self, msg: Msg) -> (r: bool)
        ensures
            r,
            match msg {
                Msg::Demo => *final(self) == (App { user_loaded: true, ..*old(self) }),
                Msg::Success(u) => *final(self) == (App { user_loaded: true, user: Some(u), ..*old(self) }),
                Msg::Sidebar => *final(self) == (App { sidebar: true, ..*old(self) }),
                Msg::HideSidebar => *final(self) == (App { sidebar: false, ..*old(self) }),
                Msg::Login => *final(self) == (App { login: true, ..*old(self) }),
                Msg::HideLogin => *final(self) == (App { login: false, ..*old(self) }),
                Msg::Dropdown => *final(self) == (App { dropdown: !old(self).dropdown, ..*old(self) }),
                Msg::ResetDropdown => *final(self) == (App {
                    dropdown: false,
                    list_dropdown: false,
                    integrations_dropdown: false,
                    ..*old(self)
                }),
                Msg::ListDropdown => *final(self) == (App { list_dropdown: !old(self).list_dropdown, ..*old(self) }),
                Msg::IntegrationsDropdown => *final(self) == (App {
                    integrations_dropdown: !old(self).integrations_dropdown,
                    ..*old(self)
                }),
            },
    {
        match msg {
            Msg::Demo => self.user_loaded = true,
            Msg::Success(user) => {
                self.user_loaded = true;
                self.user = Some(user);
            },
            Msg::Sidebar => self.sidebar = true,
            Msg::HideSidebar => self.sidebar = false,
            Msg::Login => self.login = true,
            Msg::HideLogin => self.login = false,
            Msg::Dropdown => self.dropdown = !self.dropdown,
            Msg::ResetDropdown => {
                self.dropdown = false;
                self.list_dropdown = false;
                self.integrations_dropdown = false;
            },
            Msg::ListDropdown => self.list_dropdown = !self.list_dropdown,
            Msg::IntegrationsDropdown => self.integrations_dropdown = !self.integrations_dropdown,
        }
        true
    }

    /// The class of the side bar.
    pub fn sidebar_class(&self) -> (r: &'static str)
        ensures
            r@ == if self.sidebar {
                "p-3 bg-dark flex-shrink-0 h-100 offcanvas-sm offcanvas-start text-bg-dark show"@
            } else {
                "p-3 bg-dark flex-shrink-0 h-100 offcanvas-sm offcanvas-start text-bg-dark"@
            },
    {
        if self.sidebar {
            "p-3 bg-dark flex-shrink-0 h-100 offcanvas-sm offcanvas-start text-bg-dark show"
        } else {
            "p-3 bg-dark flex-shrink-0 h-100 offcanvas-sm offcanvas-start text-bg-dark"
        }
    }
}

/// The classes of a menu's toggle and of the menu, open or closed.
pub fn dropdown_class(dropdown: bool) -> (r: (&'static str, &'static str))
    ensures
        if dropdown {
            r.0@ == "nav-link dropdown-toggle show text-white"@ && r.1@ == "dropdown-menu dropdown-menu-dark show"@
        } else {
            r.0@ == "nav-link dropdown-toggle text-white"@ && r.1@ == "dropdown-menu dropdown-menu-dark"@
        },
{
    if dropdown {
        ("nav-link dropdown-toggle show text-white", "dropdown-menu dropdown-menu-dark show")
    } else {
        ("nav-link dropdown-toggle text-white", "dropdown-menu dropdown-menu-dark")
    }
}

/// The address that starts a Spotify log-in for the site at `origin`.
pub open spec fn spotify_login_url(origin: Seq<char>) -> Seq<char> {
    "https://accounts.spotify.com/authorize?client_id=ee3d1b4f8d80477ea48743a511ef3018&redirect_uri="@ + origin
        + "/api/login&response_type=code&scope=playlist-modify-public playlist-modify-private user-read-recently-played playlist-read-private"@
}

/// The address that starts a Google log-in for the site at `origin`.
pub open spec fn google_login_url(origin: Seq<char>) -> Seq<char> {
    "https://accounts.google.com/o/oauth2/v2/auth?client_id=1038220726403-n55jha2cvprd8kdb4akdfvo0uiok4p5u.apps.googleusercontent.com&redirect_uri="@
        + origin + "/api/login/google&response_type=code&scope=email"@
}

/// The address that starts a Spotify log-in (see `spotify_login_url`).
pub fn spotify_login(origin: &str) -> (r: String)
    ensures
        r@ == spotify_login_url(origin@),
{
    String::from_str(
        "https://accounts.spotify.com/authorize?client_id=ee3d1b4f8d80477ea48743a511ef3018&redirect_uri=",
    ).concat(origin).concat(
        "/api/login&response_type=code&scope=playlist-modify-public playlist-modify-private user-read-recently-played playlist-read-private",
    )
}

/// The address that starts a Google log-in (see `google_login_url`).
pub fn google_login(origin: &str) -> (r: String)
    ensures
        r@ == google_login_url(origin@),
{
    String::from_str(
        "https://accounts.google.com/o/oauth2/v2/auth?client_id=1038220726403-n55jha2cvprd8kdb4akdfvo0uiok4p5u.apps.googleusercontent.com&redirect_uri=",
    ).concat(origin).concat("/api/login/google&response_type=code&scope=email")
}

/// The ways a query result can be shown.
#[derive(Clone, Copy, Debug, PartialEq, Eq, Structural)]
pub enum DataView {
    Table,
    ColumnGraph,
    LineGraph,
    ScatterPlot,
    CumLineGraph,
    Csv,
}

/// The names of the ways a result can be shown, as the page's selector lists them.
pub open spec fn data_view_named(name: Seq<char>) -> Option<DataView> {
    if name == "Table"@ {
        Some(DataView::Table)
    } else if name == "Column Graph"@ {
        Some(DataView::ColumnGraph)
    } else if name == "Line Graph"@ {
        Some(DataView::LineGraph)
    } else if name == "Scatter Plot"@ {
        Some(DataView::ScatterPlot)
    } else if name == "Cumulative Line Graph"@ {
        Some(DataView::CumLineGraph)
    } else if name == "CSV"@ {
        Some(DataView::Csv)
    } else {
        None
    }
}

/// The way of showing a result that the selector chose.
pub fn data_view_from_name(name: &str) -> (r: DataView)
    requires
        data_view_named(name@) is Some,
    ensures
        data_view_named(name@) == Some(r),
{
    if str_eq(name, "Table") {
        DataView::Table
    } else if str_eq(name, "Column Graph") {
        DataView::ColumnGraph
    } else if str_eq(name, "Line Graph") {
        DataView::LineGraph
    } else if str_eq(name, "Scatter Plot") {
        DataView::ScatterPlot
    } else if str_eq(name, "Cumulative Line Graph") {
        DataView::CumLineGraph
    } else {
        DataView::Csv
    }
}

impl DataView {
    /// The class of the drawing area: hidden when the result is shown as a table.
    pub fn canvas_class(&self) -> (r: &'static str)
        ensures
            r@ == if *self == DataView::Table { "d-none"@ } else { ""@ },
    {
        match self {
            DataView::Table => "d-none",
            _ => "",
        }
    }
}

/// What the query page does: show or hide the help, split the view or not.
#[derive(Clone, Copy, Debug, PartialEq, Eq, Structural)]
pub enum SearchMsg {
    ToggleHelp,
    Toggle,
}

/// Whether the user of the query page is signed in.
#[derive(Clone, Copy, Debug, PartialEq, Eq, Structural)]
pub struct SearchProps {
    pub logged_in: bool,
}

/// The query page: whether the help is hidden and whether the view is split.
#[derive(Clone, Copy, Debug, PartialEq, Eq, Structural)]
pub struct Search {
    pub help_collapsed: bool,
    pub split_view: bool,
}

impl Search {
    /// A new query page: the help is hidden for a signed-in user; the view is whole.
    pub fn new(props: SearchProps) -> (r: Search)
        ensures
            r.help_collapsed == props.logged_in,
            !r.split_view,
    {
        Search { help_collapsed: props.logged_in, split_view: false }
    }

    /// Toggles the help or the split; the page is drawn again.
    pub fn update(&mut self, msg: SearchMsg) -> (r: bool)
        ensures
            r,
            match msg {
                SearchMsg::ToggleHelp => *final(self) == Search { help_collapsed: !old(self).help_collapsed, ..*old(self) },
                SearchMsg::Toggle => *final(self) == Search { split_view: !old(self).split_view, ..*old(self) },
            },
    {
        match msg {
            SearchMsg::ToggleHelp => self.help_collapsed = !self.help_collapsed,
            SearchMsg::Toggle => self.split_view = !self.split_view,
        }
        true
    }

    /// The text of the button that splits or joins the view.
    pub fn button_text(&self) -> (r: &'static str)
        ensures
            r@ == if self.split_view { "Single View"@ } else { "Split View"@ },
    {
        if self.split_view {
            "Single View"
        } else {
            "Split View"
        }
    }
}

/// The user whose settings are shown.
#[derive(Clone, Debug, PartialEq, Eq)]
pub struct SettingsProps {
    pub user: User,
}

/// The settings page: the outside accounts of the user, or the links that add them.
#[derive(Clone, Copy, Debug, PartialEq, Eq, Structural)]
pub struct Settings;

/// One outside account on the settings page: its link and name, or the address that
/// adds it.
#[derive(Clone, Debug, PartialEq, Eq)]
pub enum Integration {
    Linked(String, String),
    Add(String),
}

impl Settings {
    /// The Spotify account: linked where both its address and name are known,
    /// otherwise the log-in address for the site at `origin`.
    pub fn spotify(props: &SettingsProps, origin: &str) -> (r: Integration)
        ensures
            match (props.user.spotify_url, props.user.spotify_user) {
                (Some(url), Some(name)) => r == Integration::Linked(url, name),
                _ => r matches Integration::Add(a) && a@ == spotify_login_url(origin@),
            },
    {
        match (&props.user.spotify_url, &props.user.spotify_user) {
            (Some(url), Some(name)) => Integration::Linked(url.clone(), name.clone()),
            _ => Integration::Add(spotify_login(origin)),
        }
    }

    /// The Google account: its address where known, otherwise the log-in address for
    /// the site at `origin`.
    pub fn google(props: &SettingsProps, origin: &str) -> (r: Integration)
        ensures
            match props.user.google_email {
                Some(email) => r == Integration::Linked(email, email),
                None => r matches Integration::Add(a) && a@ == google_login_url(origin@),
            },
    {
        match &props.user.google_email {
            Some(email) => Integration::Linked(email.clone(), email.clone()),
            None => Integration::Add(google_login(origin)),
        }
    }
}

/// The pages of a list, by address.
#[derive(Clone, Debug, PartialEq, Eq)]
pub enum ListsRoute {
    View { id: String },
    List { id: String },
    Edit { id: String },
    Match { id: String },
    Tournament { id: String },
}

impl ListsRoute {
    /// The id of the list that the address names.
    pub fn id(&self) -> (r: &String)
        ensures
            r == match *self {
                ListsRoute::View { id } => id,
                ListsRoute::List { id } => id,
                ListsRoute::Edit { id } => id,
                ListsRoute::Match { id } => id,
                ListsRoute::Tournament { id } => id,
            },
    {
        match self {
            ListsRoute::View { id } | ListsRoute::List { id } | ListsRoute::Edit { id } | ListsRoute::Match { id }
            | ListsRoute::Tournament { id } => id,
        }
    }
}

/// What a list page shows as its content.
#[derive(Clone, Copy, Debug, PartialEq, Eq, Structural)]
pub enum PageContent {
    ListView,
    ListItems,
    Edit,
    RandomMatches,
    RandomRounds,
    RandomTournament,
    Tournament,
    NotFound,
}

/// How a list page is laid out: its page, the classes of its three tabs, its
/// content, the ranking menu's title and classes, and whether the ranking menu, the
/// settings tab and the item-mode selector show. Only the list's owner sees the
/// ranking menu and the settings tab; anyone else sees whose list it is instead.
#[derive(Clone, Copy, Debug)]
pub struct ListLayout {
    pub page: ListPage,
    pub tabs: [&'static str; 3],
    pub content: PageContent,
    pub toggle: &'static str,
    pub toggle_class: &'static str,
    pub menu_class: &'static str,
    pub show_dropdown: bool,
    pub show_settings: bool,
    pub show_mode_select: bool,
}

/// The page that an address shows, with the `mode` of its query.
pub open spec fn page_of(route: ListsRoute, mode: Option<Seq<char>>) -> ListPage {
    match route {
        ListsRoute::View { .. } => ListPage::View,
        ListsRoute::List { .. } => ListPage::List,
        ListsRoute::Edit { .. } => ListPage::Edit,
        ListsRoute::Tournament { .. } => if mode == Some("random"@) { ListPage::RandomTournament } else { ListPage::Tournament },
        ListsRoute::Match { .. } => if mode == Some("rounds"@) { ListPage::RandomRounds } else { ListPage::RandomMatches },
    }
}

/// What a page shows: the owner sees every page; anyone else only the view and the
/// items.
pub open spec fn content_of(page: ListPage, owner: bool) -> PageContent {
    match page {
        ListPage::View => PageContent::ListView,
        ListPage::List => PageContent::ListItems,
        ListPage::Edit => if owner { PageContent::Edit } else { PageContent::NotFound },
        ListPage::RandomMatches => if owner { PageContent::RandomMatches } else { PageContent::NotFound },
        ListPage::RandomRounds => if owner { PageContent::RandomRounds } else { PageContent::NotFound },
        ListPage::RandomTournament => if owner { PageContent::RandomTournament } else { PageContent::NotFound },
        ListPage::Tournament => if owner { PageContent::Tournament } else { PageContent::NotFound },
    }
}

/// The title of the ranking menu on a page.
pub open spec fn toggle_of(page: ListPage) -> Seq<char> {
    match page {
        ListPage::RandomMatches => "Random Matches"@,
        ListPage::RandomRounds => "Random Rounds"@,
        ListPage::Tournament => "Tournament"@,
        ListPage::RandomTournament => "Random Tournament"@,
        _ => "Rank"@,
    }
}

/// Whether the page is a ranking page, whose menu title shows as active.
pub open spec fn is_ranking(page: ListPage) -> bool {
    page == ListPage::RandomMatches || page == ListPage::RandomRounds || page == ListPage::Tournament
        || page == ListPage::RandomTournament
}

/// The page whose tab is active, if one of the three: view, items, settings.
pub open spec fn active_tab(page: ListPage) -> int {
    match page {
        ListPage::View => 0,
        ListPage::List => 1,
        ListPage::Edit => 2,
        _ => -1,
    }
}

/// Whether the query's mode is `m`.
fn mode_is(mode: Option<&str>, m: &str) -> (r: bool)
    ensures
        r == (mode matches Some(x) && x@ == m@),
{
    match mode {
        Some(x) => str_eq(x, m),
        None => false,
    }
}

/// Lays out a list page for the address, the query's `mode`, whether the user owns
/// the list, whether the ranking menu is open, and the list's mode.
pub fn list_layout(route: &ListsRoute, mode: Option<&str>, owner: bool, dropdown: bool, list_mode: &ListMode) -> (r:
    ListLayout)
    ensures
        r.page == page_of(*route, match mode { Some(m) => Some(m@), None => None }),
        forall|k: int| 0 <= k < 3 ==> #[trigger] r.tabs@[k]@ == if k == active_tab(r.page) { "nav-link active"@ } else { "nav-link"@ },
        r.content == content_of(r.page, owner),
        r.toggle@ == toggle_of(r.page),
        r.toggle_class@ == if is_ranking(r.page) {
            if dropdown { "nav-link active dropdown-toggle show"@ } else { "nav-link active dropdown-toggle"@ }
        } else {
            if dropdown { "nav-link dropdown-toggle show"@ } else { "nav-link dropdown-toggle"@ }
        },
        r.menu_class@ == if dropdown { "dropdown-menu show"@ } else { "dropdown-menu"@ },
        r.show_dropdown == (owner && !(*list_mode is View)),
        r.show_settings == owner,
        r.show_mode_select == (r.page == ListPage::List && !(*list_mode is View)),
{
    let page = match route {
        ListsRoute::View { .. } => ListPage::View,
        ListsRoute::List { .. } => ListPage::List,
        ListsRoute::Edit { .. } => ListPage::Edit,
        ListsRoute::Tournament { .. } => if mode_is(mode, "random") { ListPage::RandomTournament } else { ListPage::Tournament },
        ListsRoute::Match { .. } => if mode_is(mode, "rounds") { ListPage::RandomRounds } else { ListPage::RandomMatches },
    };
    let mut tabs: [&'static str; 3] = ["nav-link", "nav-link", "nav-link"];
    match page {
        ListPage::View => tabs[0] = "nav-link active",
        ListPage::List => tabs[1] = "nav-link active",
        ListPage::Edit => tabs[2] = "nav-link active",
        _ => {},
    }
    let content = match page {
        ListPage::View => PageContent::ListView,
        ListPage::List => PageContent::ListItems,
        _ => if !owner {
            PageContent::NotFound
        } else {
            match page {
                ListPage::Edit => PageContent::Edit,
                ListPage::RandomMatches => PageContent::RandomMatches,
                ListPage::RandomRounds => PageContent::RandomRounds,
                ListPage::RandomTournament => PageContent::RandomTournament,
                _ => PageContent::Tournament,
            }
        },
    };
    let ranking = match page {
        ListPage::RandomMatches | ListPage::RandomRounds | ListPage::Tournament | ListPage::RandomTournament => true,
        _ => false,
    };
    let toggle = match page {
        ListPage::RandomMatches => "Random Matches",
        ListPage::RandomRounds => "Random Rounds",
        ListPage::Tournament => "Tournament",
        ListPage::RandomTournament => "Random Tournament",
        _ => "Rank",
    };
    let toggle_class = match (ranking, dropdown) {
        (false, false) => "nav-link dropdown-toggle",
        (false, true) => "nav-link dropdown-toggle show",
        (true, false) => "nav-link active dropdown-toggle",
        (true, true) => "nav-link active dropdown-toggle show",
    };
    let menu_class = if dropdown { "dropdown-menu show" } else { "dropdown-menu" };
    let view_mode = match list_mode {
        ListMode::View(_) => true,
        _ => false,
    };
    let show_mode_select = match page {
        ListPage::List => !view_mode,
        _ => false,
    };
    ListLayout {
        page,
        tabs,
        content,
        toggle,
        toggle_class,
        menu_class,
        show_dropdown: owner && !view_mode,
        show_settings: owner,
        show_mode_select,
    }
}

/// The list page while its list is fetched, once it is found, or when it is not.
pub enum ListState {
    Fetching,
    Success(List),
    NotFound,
}

/// What the list page does in answer to the server and the user.
pub enum ListMsg {
    Load(List),
    NotFound,
    /// The item-mode selector now reads this, if it could be read.
    SelectView(Option<String>),
}

/// A list page: the list, and how its items are shown.
pub struct ListComponent {
    pub state: ListState,
    pub mode: ItemMode,
}

impl ListComponent {
    /// The page while its list is fetched, showing items to look at.
    pub fn new() -> (r: ListComponent)
        ensures
            r.state is Fetching,
            r.mode == ItemMode::View,
    {
        ListComponent { state: ListState::Fetching, mode: ItemMode::View }
    }

    /// Takes one message; the page is always drawn again. A loaded list is shown to
    /// look at if it is a view and to update otherwise; the selector switches between
    /// updating and deleting.
    pub fn update(&mut self, msg: ListMsg) -> (r: bool)
        requires
            msg matches ListMsg::SelectView(Some(v)) ==> (v@ == "Update"@ || v@ == "Delete"@),
        ensures
            r,
            match msg {
                ListMsg::Load(list) => final(self).state == ListState::Success(list) && final(self).mode == if list.mode is View {
                    ItemMode::View
                } else {
                    ItemMode::Update
                },
                ListMsg::NotFound => final(self).state is NotFound && final(self).mode == old(self).mode,
                ListMsg::SelectView(v) => final(self).state == old(self).state && final(self).mode == match v {
                    Some(s) => if s@ == "Delete"@ { ItemMode::Delete } else { ItemMode::Update },
                    None => ItemMode::Update,
                },
            },
    {
        match msg {
            ListMsg::Load(list) => {
                self.mode = match list.mode {
                    ListMode::View(_) => ItemMode::View,
                    _ => ItemMode::Update,
                };
                self.state = ListState::Success(list);
            },
            ListMsg::NotFound => {
                self.state = ListState::NotFound;
            },
            ListMsg::SelectView(v) => {
                self.mode = match v {
                    Some(s) => if str_eq(s.as_str(), "Delete") {
                        ItemMode::Delete
                    } else {
                        ItemMode::Update
                    },
                    None => ItemMode::Update,
                };
            },
        }
        true
    }
}

} // verus!
