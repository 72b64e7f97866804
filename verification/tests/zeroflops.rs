use bops::zeroflops::storage::{
    check_query_tables, delete_stmt, document_view_statements, get_document_stmt,
    get_insert_stmt, get_update_stmt, view_statements, View,
};
use bops::zeroflops::{
    Error, Id, InternalError, ItemMetadata, List, ListMode, Source, SourceType, Spotify, User,
    UserId,
};
use bops::zeroflops_wasm::{
    import_request, import_track_request, parse_setlist_source, parse_spotify_source,
    setlist_source_from_capture, spotify_source_from_captures, user_list,
};

fn id(id: &str) -> Id {
    Id {
        id: id.to_owned(),
        raw_id: format!("raw:{id}"),
    }
}

fn source(source_type: SourceType) -> Source {
    Source {
        source_type,
        name: String::from("source"),
    }
}

fn item(id: &str) -> ItemMetadata {
    ItemMetadata::new(id.to_owned(), String::from("name"), None)
}

fn list(mode: ListMode, sources: Vec<Source>, items: Vec<ItemMetadata>) -> List {
    List::new(
        String::from("list"),
        &UserId(String::from("demo")),
        mode,
        String::from("New List"),
        sources,
        None,
        items,
    )
}

fn client_message(e: Error) -> String {
    match e {
        Error::ClientError(m) => m,
        other => panic!("not a client error: {other:?}"),
    }
}

#[test]
fn new_list_defaults() {
    let l = list(ListMode::External, Vec::new(), Vec::new());
    assert_eq!(l.user_id, "demo");
    assert_eq!(l.query, "SELECT name, user_score FROM item");
    assert!(!l.favorite);
    assert!(!l.public);
}

#[test]
fn unique_source_errors() {
    let cases = [
        (
            list(ListMode::External, Vec::new(), Vec::new()),
            "Push is not supported for this list type",
        ),
        (
            list(ListMode::User(None), Vec::new(), Vec::new()),
            "List has no sources",
        ),
        (
            list(
                ListMode::User(None),
                vec![source(SourceType::Custom(serde_json::Value::Null))],
                Vec::new(),
            ),
            "Push is not supported for the source",
        ),
        (
            list(
                ListMode::User(None),
                vec![
                    source(SourceType::Spotify(Spotify::Playlist(id("a")))),
                    source(SourceType::ListItems(String::from("l"))),
                ],
                Vec::new(),
            ),
            "List has multiple sources",
        ),
        (
            list(
                ListMode::User(None),
                vec![source(SourceType::ListItems(String::from("l")))],
                Vec::new(),
            ),
            "List has no items",
        ),
        (
            list(
                ListMode::User(None),
                vec![source(SourceType::ListItems(String::from("l")))],
                vec![item("spotify:track:1"), item("setlist:2")],
            ),
            "List has items from multiple sources",
        ),
    ];
    for (l, expected) in cases {
        assert_eq!(client_message(l.get_unique_source().unwrap_err()), expected);
    }
}

#[test]
fn unique_source_found() {
    let l = list(
        ListMode::User(Some(id("p"))),
        vec![
            source(SourceType::Spotify(Spotify::Album(id("a")))),
            source(SourceType::Setlist(id("s"))),
        ],
        Vec::new(),
    );
    let (origin, ext) = l.get_unique_source().unwrap();
    assert_eq!(origin, Some("spotify"));
    assert_eq!(ext, &Some(id("p")));

    let l = list(
        ListMode::User(None),
        vec![source(SourceType::ListItems(String::from("l")))],
        vec![item("spotify:track:1"), item("spotify:track:2")],
    );
    assert_eq!(l.get_unique_source().unwrap(), (Some("spotify"), &None));

    let l = list(ListMode::View(Some(id("v"))), Vec::new(), Vec::new());
    assert_eq!(l.get_unique_source().unwrap(), (Some("spotify"), &Some(id("v"))));
}

#[test]
fn update_iframe_points_at_the_playlist() {
    let mut l = list(
        ListMode::User(Some(id("5jPjYAdQO0MgzHdwSmYPNZ"))),
        vec![source(SourceType::Spotify(Spotify::Playlist(id("x"))))],
        Vec::new(),
    );
    l.update_iframe();
    assert_eq!(
        l.iframe.as_deref(),
        Some("https://open.spotify.com/embed/playlist/5jPjYAdQO0MgzHdwSmYPNZ?utm_source=generator")
    );

    let mut unchanged = list(ListMode::External, Vec::new(), Vec::new());
    let before = unchanged.clone();
    unchanged.update_iframe();
    assert_eq!(unchanged, before);
}

#[test]
fn insert_and_update_statements() {
    assert_eq!(
        get_insert_stmt("list", false),
        "INSERT INTO _list (id, user_id, mode, name, sources, iframe, items, favorite, query, public) VALUES (:id, :user_id, :mode, :name, :sources, :iframe, :items, :favorite, :query, :public)"
    );
    assert!(get_insert_stmt("item", true).ends_with(
        "ON CONFLICT(id, user_id) DO UPDATE SET rating=excluded.rating, user_score=excluded.user_score, user_wins=excluded.user_wins, user_losses=excluded.user_losses"
    ));
    let (stmt, fields) = get_update_stmt("item");
    assert_eq!(stmt, "UPDATE _item SET rating = :rating, user_score = :user_score, user_wins = :user_wins, user_losses = :user_losses WHERE id = :id AND user_id = :user_id");
    assert_eq!(
        fields,
        vec!["id", "user_id", "rating", "user_score", "user_wins", "user_losses"]
    );
    assert_eq!(get_document_stmt("list"), "SELECT * FROM list WHERE id = ?1");
    assert_eq!(delete_stmt("item"), "DELETE FROM _item WHERE id = ?1");
}

#[test]
fn hidden_tables_are_refused() {
    assert!(check_query_tables("SELECT name FROM item").is_ok());
    for (query, expected) in [
        ("SELECT * FROM sqlite_schema", "no such table: sqlite_schema"),
        ("SELECT * FROM sqlite_master", "no such table: sqlite_master"),
        ("SELECT * FROM _list", "no such table: _list"),
        ("SELECT * FROM _item", "no such table: _item"),
    ] {
        assert_eq!(
            client_message(check_query_tables(query).unwrap_err()),
            expected
        );
    }
}

#[test]
fn views_for_each_partition() {
    assert_eq!(
        view_statements(&View::List(
            UserId(String::from("u")),
            vec![String::from("a"), String::from("b")]
        )),
        "CREATE TEMP VIEW list AS SELECT * FROM _list WHERE user_id = 'u';\n                        CREATE TEMP VIEW item AS SELECT * FROM _item WHERE user_id = 'u' AND id IN ('a','b');"
    );
    assert_eq!(
        view_statements(&View::User(UserId(String::from("u")))),
        "CREATE TEMP VIEW list AS SELECT * FROM _list WHERE user_id = 'u';\n                        CREATE TEMP VIEW item AS SELECT * FROM _item WHERE user_id = 'u';"
    );
    assert!(view_statements(&View::PublicList(vec![String::from("x")]))
        .ends_with("WHERE public = true AND _item.id IN ('x');"));
    assert_eq!(
        document_view_statements(&View::Public).unwrap(),
        view_statements(&View::Public)
    );
    match document_view_statements(&View::PublicList(Vec::new())) {
        Err(Error::InternalError(InternalError::Error(m))) => assert_eq!(m, "unsupported view"),
        other => panic!("unexpected {other:?}"),
    }
}

#[test]
fn test_parse_spotify_source() {
    assert_eq!(
        parse_spotify_source(String::from(
            "https://open.spotify.com/playlist/5jPjYAdQO0MgzHdwSmYPNZ?si=7d1f5dfadb654daa"
        )),
        Some(Spotify::Playlist(Id {
            id: String::from("5jPjYAdQO0MgzHdwSmYPNZ"),
            raw_id: String::from(
                "https://open.spotify.com/playlist/5jPjYAdQO0MgzHdwSmYPNZ?si=7d1f5dfadb654daa"
            )
        }))
    );
}

#[test]
fn parse_other_spotify_sources() {
    let album = "https://open.spotify.com/album/4aawyAB9vmqN3uQ7FjRGTy";
    assert_eq!(
        parse_spotify_source(String::from(album)),
        Some(Spotify::Album(Id {
            id: String::from("4aawyAB9vmqN3uQ7FjRGTy"),
            raw_id: String::from(album)
        }))
    );
    assert_eq!(parse_spotify_source(String::from("not an address")), None);
    let track = "https://open.spotify.com/track/11dFghVXANMlKmJXsNCbNl";
    let (source, track_id) = import_track_request(String::from(track)).unwrap();
    assert_eq!(source, "spotify:track");
    assert_eq!(track_id.id, "11dFghVXANMlKmJXsNCbNl");
    assert_eq!(import_track_request(String::from(album)), None);
    assert_eq!(
        import_request(String::from(album)).map(|(s, i)| (s, i.id)),
        Some(("spotify:album", String::from("4aawyAB9vmqN3uQ7FjRGTy")))
    );
}

#[test]
fn parse_setlist() {
    let address = "https://www.setlist.fm/setlist/taylor-swift/2023/stadium-63a1b2c3.html";
    assert_eq!(
        parse_setlist_source(String::from(address)),
        Some(Id {
            id: String::from("63a1b2c3"),
            raw_id: String::from(address)
        })
    );
    assert_eq!(parse_setlist_source(String::from("https://example.com")), None);
    assert_eq!(setlist_source_from_capture(String::from("x"), None), None);
}

#[test]
fn captures_pick_the_first_kind() {
    let r = spotify_source_from_captures(
        String::from("in"),
        None,
        Some(String::from("a")),
        Some(String::from("t")),
    );
    assert_eq!(
        r,
        Some(Spotify::Album(Id {
            id: String::from("a"),
            raw_id: String::from("in")
        }))
    );
    assert_eq!(
        spotify_source_from_captures(String::from("in"), None, None, None),
        None
    );
}

#[test]
fn user_lists() {
    let l = list(ListMode::External, Vec::new(), Vec::new());
    assert!(user_list(&l, &None));
    let other = User {
        user_id: String::from("someone"),
        spotify_user: None,
        spotify_url: None,
        google_email: None,
    };
    assert!(!user_list(&l, &Some(other)));
}
