use bops::zeroflops::{Id, ItemMetadata, List, ListMode, SourceType, Spotify, UserId};
use bops::zeroflops_wasm::edit::{
    mode_name, selected_kind, Action as EditAction, Edit, EditForm, Msg as EditMsg, SourceInput,
};
use bops::zeroflops_wasm::home::{
    ranking_route, Home, HomeMsg, Lists, ListsAction, ListsMsg, Widget, WidgetAction, WidgetMsg,
};
use bops::zeroflops_wasm::integrations::{
    Action as SpotifyAction, Msg as SpotifyMsg, SpotifyIntegration,
};
use bops::zeroflops_wasm::app::ListsRoute;
use bops::zeroflops_wasm::list_items::{
    controls_disabled, grid_styles, show_push, Action, ItemMode, ItemRow, ItemUpdate, ListItems,
    Msg, State,
};

fn item(id: &str) -> ItemMetadata {
    ItemMetadata::new(id.to_owned(), format!("name {id}"), None)
}

fn loaded_page() -> ListItems {
    let mut page = ListItems::new(vec![item("a"), item("b"), item("c")]);
    let rows = vec![
        ItemRow {
            id: String::from("a"),
            rating: Some(3),
            hidden: Some(false),
        },
        ItemRow {
            id: String::from("c"),
            rating: None,
            hidden: Some(true),
        },
    ];
    assert_eq!(page.update(Msg::Load(Some(rows))), (true, Action::Nothing));
    page
}

#[test]
fn loading_rows_sets_both_states() {
    let page = loaded_page();
    let expected = vec![
        State {
            rating: Some(3),
            hidden: false,
        },
        State {
            rating: None,
            hidden: false,
        },
        State {
            rating: None,
            hidden: true,
        },
    ];
    assert_eq!(page.state, Some(expected.clone()));
    assert_eq!(page.prev_state, Some(expected));
}

#[test]
fn save_sends_only_changes() {
    let mut page = loaded_page();
    assert_eq!(page.update(Msg::UpdateRating(1, Some(5))), (true, Action::Nothing));
    let (redraw, action) = page.update(Msg::Save(vec![false, false, false]));
    assert!(!redraw);
    assert_eq!(
        action,
        Action::SaveItems(vec![
            (
                1,
                ItemUpdate {
                    rating: Some(Some(5)),
                    hidden: None
                }
            ),
            (
                2,
                ItemUpdate {
                    rating: None,
                    hidden: Some(false)
                }
            ),
        ])
    );
}

#[test]
fn saved_state_matches_form() {
    let mut page = loaded_page();
    page.update(Msg::UpdateRating(0, None));
    let updates = match page.update(Msg::Save(vec![true, false, true])).1 {
        Action::SaveItems(u) => u,
        other => panic!("unexpected {other:?}"),
    };
    page.update(Msg::SaveSuccess(updates));
    assert_eq!(page.alert, Some(Ok(String::from("Save successful"))));
    assert_eq!(page.state, page.prev_state);
    assert_eq!(
        page.state.as_ref().unwrap()[0],
        State {
            rating: None,
            hidden: true
        }
    );
    // Saving again finds nothing to send, so nothing is sent.
    assert_eq!(
        page.update(Msg::Save(vec![true, false, true])).1,
        Action::Nothing
    );
}

#[test]
fn modal_steps_wrap_and_undo() {
    let mut page = loaded_page();
    page.update(Msg::Open(0));
    page.update(Msg::ModalBack);
    assert_eq!(page.modal, Some(2));
    page.update(Msg::ModalForward);
    assert_eq!(page.modal, Some(0));
    page.update(Msg::HideModal);
    assert_eq!(page.modal, None);
}

#[test]
fn alerts_push_and_delete() {
    let mut page = loaded_page();
    page.update(Msg::SaveError(String::from("boom")));
    assert_eq!(page.alert, Some(Err(String::from("boom"))));
    page.update(Msg::HideAlert);
    assert_eq!(page.alert, None);
    assert_eq!(page.update(Msg::Push), (false, Action::PushList));
    assert_eq!(
        page.update(Msg::Delete((String::from("b"), 1))),
        (false, Action::DeleteItem(String::from("b"), 1))
    );
    page.update(Msg::DeleteSuccess(1));
    let ids: Vec<_> = page.items.iter().map(|i| i.id.clone()).collect();
    assert_eq!(ids, vec!["a", "c"]);
    assert_eq!(page.state.as_ref().unwrap().len(), 2);
    assert_eq!(page.update(Msg::Noop), (false, Action::Nothing));
}

#[test]
fn controls_follow_the_owner() {
    let owner = |id: &str| bops::zeroflops::User {
        user_id: String::from(id),
        spotify_user: None,
        spotify_url: None,
        google_email: None,
    };
    let list = user_list(0);
    assert!(controls_disabled(&None, &list));
    assert!(!controls_disabled(&Some(owner("u")), &list));
    assert!(controls_disabled(&Some(owner("v")), &list));
    assert!(show_push(&list));
    let mut external = user_list(0);
    external.mode = ListMode::External;
    assert!(!show_push(&external));
    let mut view = user_list(0);
    view.mode = ListMode::View(None);
    assert!(show_push(&view));
}

#[test]
fn grid_styles_per_mode() {
    let (view, _) = grid_styles(ItemMode::View);
    let (update, _) = grid_styles(ItemMode::Update);
    assert_ne!(view, update);
}

fn user_list(sources: usize) -> List {
    let mut l = List::new(
        String::from("l1"),
        &UserId(String::from("u")),
        ListMode::User(None),
        String::from("Old"),
        Vec::new(),
        None,
        vec![item("x"), item("y")],
    );
    for i in 0..sources {
        l.sources.push(bops::zeroflops::Source {
            source_type: SourceType::ListItems(format!("s{i}")),
            name: String::new(),
        });
    }
    l
}

#[test]
fn edit_rows_and_save() {
    let mut edit = Edit::new(user_list(1));
    assert_eq!(edit.counter, 1);
    assert_eq!(edit.update(EditMsg::AddSource), (true, EditAction::Nothing));
    assert_eq!(edit.sources.len(), 2);
    assert_eq!(edit.sources[1].0, 1);
    assert_eq!(edit.update(EditMsg::DeleteSource(0)), (true, EditAction::Nothing));
    assert_eq!(edit.sources.len(), 1);

    let form = EditForm {
        name: String::from("New"),
        external_id: String::from("https://open.spotify.com/playlist/5jPjYAdQO0MgzHdwSmYPNZ"),
        query: String::from("SELECT name FROM item"),
        favorite: true,
        sources: vec![
            SourceInput {
                kind: String::from("Spotify"),
                id: String::from("https://open.spotify.com/album/4aawyAB9vmqN3uQ7FjRGTy"),
            },
            SourceInput {
                kind: String::from("Custom"),
                id: String::from("{\"name\": \"x\"}"),
            },
        ],
    };
    assert_eq!(edit.update(EditMsg::Save(form)), (false, EditAction::UpdateList));
    assert_eq!(edit.list.name, "New");
    assert!(edit.list.favorite);
    assert_eq!(
        edit.list.mode,
        ListMode::User(Some(Id {
            id: String::from("5jPjYAdQO0MgzHdwSmYPNZ"),
            raw_id: String::from("https://open.spotify.com/playlist/5jPjYAdQO0MgzHdwSmYPNZ"),
        }))
    );
    assert_eq!(edit.list.sources.len(), 2);
    assert!(matches!(
        edit.list.sources[0].source_type,
        SourceType::Spotify(Spotify::Album(_))
    ));
    let mut expected = serde_json::Map::new();
    expected.insert(String::from("name"), serde_json::Value::String(String::from("x")));
    assert_eq!(
        edit.list.sources[1].source_type,
        SourceType::Custom(serde_json::Value::Object(expected))
    );
}

#[test]
fn edit_refuses_a_bad_row() {
    let mut edit = Edit::new(user_list(0));
    let form = EditForm {
        name: String::from("New"),
        external_id: String::new(),
        query: String::from("q"),
        favorite: false,
        sources: vec![SourceInput {
            kind: String::from("Custom"),
            id: String::from("{not json"),
        }],
    };
    assert_eq!(edit.update(EditMsg::Save(form)), (false, EditAction::Nothing));
}

#[test]
fn edit_delete_prompts() {
    let mut edit = Edit::new(user_list(0));
    assert_eq!(
        edit.update(EditMsg::Delete),
        (false, EditAction::Confirm(String::from("Delete l1?")))
    );
    assert_eq!(
        edit.update(EditMsg::DeleteConfirmed),
        (false, EditAction::DeleteList(String::from("l1")))
    );
    assert_eq!(
        edit.update(EditMsg::DeleteAll),
        (
            false,
            EditAction::Confirm(String::from("Delete all items in l1 and list?"))
        )
    );
    assert_eq!(
        edit.update(EditMsg::DeleteAllConfirmed),
        (
            false,
            EditAction::DeleteItemsAndList(
                vec![String::from("x"), String::from("y")],
                String::from("l1")
            )
        )
    );
    assert_eq!(mode_name(&ListMode::External), "External");
    assert_eq!(selected_kind(&None), 1);
    assert_eq!(
        selected_kind(&Some(SourceType::ListItems(String::from("s")))),
        3
    );
}

#[test]
fn home_and_lists_pages() {
    let mut home = Home::new(true);
    assert!(home.help_collapsed);
    assert_eq!(home.update(HomeMsg::ToggleHelp), (true, ListsAction::Nothing));
    assert!(!home.help_collapsed);
    assert_eq!(home.update(HomeMsg::Load(vec![user_list(0)])), (true, ListsAction::Nothing));
    assert_eq!(home.lists.len(), 1);
    assert_eq!(home.update(HomeMsg::Create), (false, ListsAction::CreateList));
    let mut lists = Lists::new();
    assert_eq!(lists.update(ListsMsg::Load(vec![user_list(0), user_list(1)])), (true, ListsAction::Nothing));
    assert_eq!(lists.lists.len(), 2);
    assert_eq!(lists.update(ListsMsg::Create), (false, ListsAction::CreateList));
}

#[test]
fn cards_fetch_then_toggle() {
    let mut w = Widget::new();
    assert_eq!(w.update(WidgetMsg::Fetching), (false, WidgetAction::FetchData));
    assert!(w.collapsed);
    assert_eq!(w.update(WidgetMsg::Success(true)), (true, WidgetAction::Nothing));
    assert!(!w.collapsed && w.loaded);
    assert_eq!(w.update(WidgetMsg::Fetching), (true, WidgetAction::Nothing));
    assert!(w.collapsed);
}

#[test]
fn ranking_routes() {
    assert_eq!(
        ranking_route("Random Rounds", String::from("l")),
        Some((
            ListsRoute::Match {
                id: String::from("l")
            },
            Some("rounds")
        ))
    );
    assert_eq!(
        ranking_route("Tournament", String::from("l")),
        Some((
            ListsRoute::Tournament {
                id: String::from("l")
            },
            None
        ))
    );
    assert_eq!(ranking_route("Sort", String::from("l")), None);
}

#[test]
fn spotify_page_imports() {
    let mut page = SpotifyIntegration::new();
    assert_eq!(page.update(SpotifyMsg::Noop), (true, SpotifyAction::Nothing));
    let album = String::from("https://open.spotify.com/album/4aawyAB9vmqN3uQ7FjRGTy");
    match page.update(SpotifyMsg::Import(album.clone())) {
        (true, SpotifyAction::ImportList(source, id)) => {
            assert_eq!(source, "spotify:album");
            assert_eq!(id.id, "4aawyAB9vmqN3uQ7FjRGTy");
        }
        other => panic!("unexpected {other:?}"),
    }
    assert_eq!(page.update(SpotifyMsg::ImportTrack(album)), (false, SpotifyAction::Nothing));
    assert_eq!(
        page.update(SpotifyMsg::Import(String::from("nothing"))),
        (false, SpotifyAction::Nothing)
    );
    page.update(SpotifyMsg::LoadPlaylists(bops::zeroflops::spotify::Playlists { items: Vec::new() }));
    assert!(page.playlists.is_some());
}
