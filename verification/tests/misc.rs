use bops::smashsort::{route_request, route_status, signed_in_status, ResponseHead, RouteDecision};
use bops::spotify::{link_for, SpotifyClient, Token, User as SpotifyUser};
use bops::text::{contains_str, find_char, find_text, split_once, str_eq, text_before};
use bops::topbops_web::query::list_query_text;
use bops::zeroflops::{Error, InternalError, ListMode};
use bops::zeroflops_wasm::app::{
    data_view_from_name, dropdown_class, google_login, list_layout, spotify_login, App, DataView,
    Integration, ListPage, ListsRoute, Msg, PageContent, Search, SearchMsg, SearchProps,
    Settings, SettingsProps,
};
use bops::zeroflops_wasm::api;
use bops::zeroflops_wasm::bootstrap::{Accordion, AccordionMsg, Alert, Collapse};

#[test]
fn text_helpers() {
    assert!(str_eq("abc", "abc"));
    assert!(!str_eq("abc", "abd"));
    assert_eq!(find_char("a:b:c", ':'), Some(1));
    assert_eq!(find_char("abc", ':'), None);
    assert_eq!(text_before("user@mail", '@'), "user");
    assert_eq!(text_before("nobody", '@'), "");
    assert!(contains_str("SELECT * FROM _item", "_item"));
    assert!(!contains_str("SELECT", "FROM"));
    assert_eq!(find_text("SELECT a FROM b FROM c", "FROM"), Some(9));
    assert_eq!(split_once("k=v=w", '='), Some(("k", "v=w")));
    assert_eq!(split_once("kv", '='), None);
}

#[test]
fn api_routes() {
    assert_eq!(route_request("/index.html", false, None), RouteDecision::NotFound);
    assert_eq!(route_request("/api/lists", true, None), RouteDecision::Options);
    assert_eq!(route_request("/api/lists", false, None), RouteDecision::Unauthorized);
    assert_eq!(
        route_request("/api/lists", false, Some("Bearer")),
        RouteDecision::BadRequest
    );
    assert_eq!(
        route_request("/api/lists", false, Some("Bearer demo")),
        RouteDecision::Demo
    );
    assert_eq!(
        route_request("/api/login", false, Some("Bearer abc")),
        RouteDecision::Login(String::from("abc"), String::from("login"))
    );
    assert_eq!(signed_in_status("login", true), 200);
    assert_eq!(signed_in_status("login", false), 405);
    assert_eq!(signed_in_status("lists", true), 405);
}

#[test]
fn route_answers() {
    let head = |status: u16, allow_headers: bool, allow_methods: bool| ResponseHead {
        status,
        allow_headers,
        allow_methods,
    };
    assert_eq!(route_status(&RouteDecision::NotFound, false, false), head(404, true, false));
    assert_eq!(route_status(&RouteDecision::Options, false, false), head(200, true, true));
    assert_eq!(route_status(&RouteDecision::Unauthorized, false, true), head(401, false, false));
    assert_eq!(route_status(&RouteDecision::BadRequest, false, true), head(400, false, false));
    assert_eq!(route_status(&RouteDecision::Demo, true, true), head(405, false, false));
    let login = RouteDecision::Login(String::from("abc"), String::from("login"));
    assert_eq!(route_status(&login, false, true), head(401, false, false));
    assert_eq!(route_status(&login, true, true), head(200, true, false));
    assert_eq!(route_status(&login, true, false), head(405, false, false));
    let other = RouteDecision::Login(String::from("abc"), String::from("lists"));
    assert_eq!(route_status(&other, true, true), head(405, false, false));
}

#[test]
fn spotify_credentials() {
    let links = vec![
        (String::from("web"), String::from("w")),
        (String::from("spotify"), String::from("first")),
        (String::from("spotify"), String::from("second")),
    ];
    assert_eq!(link_for(&links, "spotify"), "first");
    let user = SpotifyUser {
        id: String::from("sp"),
        external_urls: links,
    };
    let token = Token {
        access_token: String::from("a"),
        refresh_token: Some(String::from("r")),
    };
    let c = SpotifyClient::credentials(user.clone(), token).unwrap();
    assert_eq!(c.user_id, "sp");
    assert_eq!(c.url, "first");
    assert_eq!(c.refresh_token, "r");
    let no_refresh = Token {
        access_token: String::from("a"),
        refresh_token: None,
    };
    match SpotifyClient::credentials(user, no_refresh) {
        Err(Error::InternalError(InternalError::Error(m))) => {
            assert_eq!(m, "Spotify did not return refresh_token")
        }
        other => panic!("unexpected {other:?}"),
    }
}

#[test]
fn external_list_queries_read_their_items() {
    let item = |id: &str| bops::topbops::ItemMetadata::new(id.to_owned(), id.to_owned(), None);
    let mut list = bops::topbops::List {
        id: String::from("l"),
        user_id: String::from("u"),
        name: String::from("n"),
        items: vec![item("a"), item("b")],
        mode: bops::topbops::ListMode::External,
        query: String::from("SELECT name FROM c"),
    };
    assert_eq!(
        list_query_text(&list),
        "SELECT name, rating , id  FROM c WHERE c.id IN (\"a\",\"b\")"
    );
    list.mode = bops::topbops::ListMode::User;
    assert_eq!(list_query_text(&list), "SELECT name FROM c");
}

#[test]
fn app_shell() {
    let mut app = App::new();
    assert!(!app.user_loaded);
    app.update(Msg::Demo);
    assert!(app.user_loaded);
    app.update(Msg::Sidebar);
    assert!(app.sidebar_class().ends_with(" show"));
    app.update(Msg::HideSidebar);
    assert!(!app.sidebar_class().ends_with(" show"));
    assert_eq!(
        dropdown_class(true),
        (
            "nav-link dropdown-toggle show text-white",
            "dropdown-menu dropdown-menu-dark show"
        )
    );
    assert!(spotify_login("http://localhost:3000").starts_with(
        "https://accounts.spotify.com/authorize?client_id=ee3d1b4f8d80477ea48743a511ef3018&redirect_uri=http://localhost:3000"
    ));
    assert!(google_login("http://localhost:3000")
        .ends_with("http://localhost:3000/api/login/google&response_type=code&scope=email"));
}

#[test]
fn list_pages() {
    let route = ListsRoute::Tournament {
        id: String::from("x"),
    };
    assert_eq!(route.id(), "x");
    let layout = list_layout(&route, Some("random"), true, false, &ListMode::User(None));
    assert_eq!(layout.page, ListPage::RandomTournament);
    assert_eq!(layout.content, PageContent::RandomTournament);
    assert_eq!(layout.toggle, "Random Tournament");
    assert_eq!(layout.toggle_class, "nav-link active dropdown-toggle");
    assert_eq!(layout.tabs, ["nav-link", "nav-link", "nav-link"]);
    assert!(layout.show_dropdown);
    assert!(layout.show_settings);
    let layout = list_layout(
        &ListsRoute::Edit {
            id: String::from("x"),
        },
        None,
        false,
        true,
        &ListMode::View(None),
    );
    assert_eq!(layout.content, PageContent::NotFound);
    assert_eq!(layout.tabs, ["nav-link", "nav-link", "nav-link active"]);
    assert_eq!(layout.menu_class, "dropdown-menu show");
    assert!(!layout.show_dropdown);
    let layout = list_layout(
        &ListsRoute::List {
            id: String::from("x"),
        },
        None,
        false,
        false,
        &ListMode::External,
    );
    assert!(layout.show_mode_select);
    assert!(!layout.show_dropdown);
    assert!(!layout.show_settings);
    assert_eq!(layout.toggle, "Rank");
    let layout = list_layout(
        &ListsRoute::List {
            id: String::from("x"),
        },
        None,
        true,
        false,
        &ListMode::User(None),
    );
    assert!(layout.show_dropdown);
    assert!(layout.show_settings);
    assert_eq!(layout.content, PageContent::ListItems);
}

#[test]
fn query_page_and_settings() {
    assert_eq!(data_view_from_name("Table"), DataView::Table);
    assert_eq!(DataView::Table.canvas_class(), "d-none");
    assert_eq!(DataView::Csv.canvas_class(), "");
    let mut search = Search::new(SearchProps { logged_in: true });
    assert!(search.help_collapsed);
    assert_eq!(search.button_text(), "Split View");
    search.update(SearchMsg::Toggle);
    assert_eq!(search.button_text(), "Single View");
    search.update(SearchMsg::ToggleHelp);
    assert!(!search.help_collapsed);

    let props = SettingsProps {
        user: bops::zeroflops::User {
            user_id: String::from("u"),
            spotify_user: Some(String::from("sp")),
            spotify_url: Some(String::from("https://open.spotify.com/user/sp")),
            google_email: None,
        },
    };
    assert_eq!(
        Settings::spotify(&props, "http://o"),
        Integration::Linked(
            String::from("https://open.spotify.com/user/sp"),
            String::from("sp")
        )
    );
    match Settings::google(&props, "http://o") {
        Integration::Add(a) => assert!(a.contains("redirect_uri=http://o/api/login/google")),
        other => panic!("unexpected {other:?}"),
    }
}

#[test]
fn small_widgets() {
    let mut a = Accordion::new(None);
    assert_eq!(a.classes(), ("accordion-button collapsed", "accordion-collapse collapse"));
    a.update(AccordionMsg::Toggle);
    assert_eq!(a.classes(), ("accordion-button", "accordion-collapse collapse show"));
    a.changed(Some(true));
    assert!(a.collapsed);
    a.changed(None);
    assert!(a.collapsed);
    let ok = Ok(String::from("saved"));
    assert_eq!(
        Alert::view(&ok),
        ("alert alert-success alert-dismissible", &String::from("saved"))
    );
    let err = Err(String::from("bad"));
    assert_eq!(Alert::view(&err).0, "alert alert-danger alert-dismissible");
    assert_eq!(Collapse::body_class(false), "collapse show");
}

#[test]
fn request_addresses() {
    assert_eq!(api::lists_url(true), "/api/lists?favorite=true");
    assert_eq!(api::list_url("x"), "/api/lists/x");
    assert_eq!(api::create_list_url(None), "/api/lists");
    assert_eq!(api::create_list_url(Some("SELECT 1")), "/api/lists?query=SELECT 1");
    assert_eq!(api::query_list_url("x", None), "/api/lists/x/query");
    assert_eq!(api::items_url("x"), "/api/lists/x/items");
    assert_eq!(
        api::update_stats_url("l", "w", "z"),
        "/api/?action=update&list=l&win=w&lose=z"
    );
    assert_eq!(api::push_url("l"), "/api/?action=push&list=l");
    assert_eq!(
        api::import_url("spotify:album", "a"),
        "/api/?action=import&source=spotify:album&id=a"
    );
    assert_eq!(api::find_items_url("q"), "/api/items?q=search&query=q");
    assert_eq!(
        api::delete_items_url(&vec![String::from("a"), String::from("b")]),
        "/api/items?ids=a,b"
    );
}
