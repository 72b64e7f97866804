use bops::spotify::SpotifyCredentials;
use bops::zeroflops::{Error, Id, InternalError, ItemMetadata, List, ListMode, Source, SourceType};
use bops::zeroflops_web::handlers::{
    check_list_id, get_param, get_user_or_demo_user, lists_query, new_list, record_match,
    route_action, split_source, with_playlist, ActionError, ActionRequest,
};
use bops::zeroflops_web::query::{
    insert_id_column, list_items_query, order_by_list, quote_item_ids,
};
use bops::zeroflops_web::source::setlist::{
    setlist_songs, setlist_source, Artist as SetArtist, City, Country, Setlist, Sets, Song,
    SongSet, Venue,
};
use bops::zeroflops_web::source::spotify::{
    album_tracks_url, album_url, playlist_details_url, playlist_items_url, playlist_update_error,
    playlist_url, spotify_source, track_url, user_playlists_url, TrackPages,
    collection_id, external_list, first_search_result, new_spotify_item, playlist_update_uris,
    recent_tracks, recent_tracks_query, search_uri, Album, Artist, Collection, KnownTrack,
    PlayHistory, RecentTracks, Track,
};
use bops::zeroflops_web::source::{custom_values, get_custom_items, new_custom_item, CustomValue};
use bops::zeroflops_web::user::{google_user_id, refresh_token, set_access_token, User};
use bops::zeroflops_web::{convert_items, Item, UserId};

fn params(pairs: &[(&str, &str)]) -> Vec<(String, String)> {
    pairs
        .iter()
        .map(|(k, v)| (k.to_string(), v.to_string()))
        .collect()
}

fn client_message(e: Error) -> String {
    match e {
        Error::ClientError(m) => m,
        other => panic!("not a client error: {other:?}"),
    }
}

#[test]
fn params_take_the_last_value() {
    let p = params(&[("a", "1"), ("b", "2"), ("a", "3")]);
    assert_eq!(get_param(&p, "a").map(String::as_str), Some("3"));
    assert_eq!(get_param(&p, "c"), None);
}

#[test]
fn actions_are_routed() {
    let p = params(&[("action", "update"), ("list", "l"), ("win", "w"), ("lose", "x")]);
    assert_eq!(
        route_action(&p, false),
        Ok(ActionRequest::Update {
            list: String::from("l"),
            win: String::from("w"),
            lose: String::from("x")
        })
    );
    let p = params(&[("action", "push"), ("list", "l")]);
    assert_eq!(route_action(&p, false), Err(ActionError::Unauthorized));
    assert_eq!(
        route_action(&p, true),
        Ok(ActionRequest::Push {
            list: String::from("l")
        })
    );
    let p = params(&[("action", "import"), ("source", "spotify:playlist"), ("id", "x")]);
    assert_eq!(
        route_action(&p, true),
        Ok(ActionRequest::Import {
            source: String::from("spotify:playlist"),
            id: String::from("x")
        })
    );
    let p = params(&[("action", "updateItems")]);
    assert_eq!(route_action(&p, false), Ok(ActionRequest::UpdateItems));
    let p = params(&[("action", "update"), ("list", "l")]);
    assert_eq!(
        route_action(&p, true),
        Err(ActionError::BadRequest(String::from("action does not exist")))
    );
}

#[test]
fn small_handlers() {
    assert_eq!(get_user_or_demo_user(None).0, "demo");
    assert_eq!(lists_query(Some("true")), "SELECT * FROM list WHERE favorite = true");
    assert_eq!(lists_query(Some("false")), "SELECT * FROM list");
    assert_eq!(lists_query(None), "SELECT * FROM list");
    let l = new_list(String::from("id"), String::from("u"));
    assert_eq!(l.name, "New List");
    assert_eq!(l.mode, ListMode::User(None));
    assert!(check_list_id(&l, "id").is_ok());
    assert_eq!(
        client_message(check_list_id(&l, "other").unwrap_err()),
        "list id doesn't match"
    );
    assert_eq!(split_source("spotify:playlist:x"), Some(("spotify", "playlist:x")));
    assert_eq!(split_source("custom"), None);
    let p = Id {
        id: String::from("p"),
        raw_id: String::from("r"),
    };
    assert_eq!(
        with_playlist(ListMode::View(None), p.clone()),
        ListMode::View(Some(p.clone()))
    );
    assert_eq!(with_playlist(ListMode::User(None), p.clone()), ListMode::User(Some(p)));
}

fn item(id: &str) -> Item {
    new_custom_item(id, &UserId(String::from("u")), id.to_owned(), serde_json::Map::new())
}

#[test]
fn matches_are_recorded() {
    let mut l = new_list(String::from("l"), String::from("u"));
    l.items = vec![
        ItemMetadata::new(String::from("a"), String::from("A"), None),
        ItemMetadata::new(String::from("b"), String::from("B"), None),
    ];
    let mut win = item("a");
    let mut lose = item("b");
    record_match(&mut l, "a", "b", &mut win, &mut lose);
    assert_eq!((l.items[0].score, l.items[0].wins, l.items[0].losses), (1516, 1, 0));
    assert_eq!((l.items[1].score, l.items[1].wins, l.items[1].losses), (1484, 0, 1));
    assert_eq!((win.user_score, win.user_wins), (1516, 1));
    assert_eq!((lose.user_score, lose.user_losses), (1484, 1));
}

#[test]
fn custom_items() {
    let user = UserId(String::from("u"));
    let mut meta = serde_json::Map::new();
    meta.insert(String::from("x"), serde_json::Value::Bool(true));
    let items = get_custom_items(
        &user,
        Some(vec![
            CustomValue::Text(String::from("song")),
            CustomValue::Object(Some(String::from("7")), Some(String::from("Seven")), meta.clone()),
        ]),
    )
    .unwrap();
    assert_eq!(items.len(), 2);
    assert_eq!(items[0].id, "custom:song");
    assert_eq!(items[0].name, "song");
    assert_eq!(items[0].item_type, "custom");
    assert_eq!(items[0].user_score, 1500);
    assert_eq!(items[1].id, "custom:7");
    assert_eq!(items[1].name, "Seven");
    assert_eq!(items[1].metadata, meta);
    for (value, expected) in [
        (None, "invalid custom type"),
        (Some(vec![CustomValue::Other]), "invalid custom type"),
        (
            Some(vec![
                CustomValue::Text(String::from("ok")),
                CustomValue::Object(None, Some(String::from("n")), serde_json::Map::new()),
            ]),
            "invalid id",
        ),
        (
            Some(vec![CustomValue::Object(
                Some(String::from("i")),
                None,
                serde_json::Map::new(),
            )]),
            "invalid name",
        ),
    ] {
        assert_eq!(
            client_message(get_custom_items(&user, value).unwrap_err()),
            expected
        );
    }
}

fn track(id: &str) -> Track {
    Track {
        id: id.to_owned(),
        name: format!("Song {id}"),
        album: Album {
            href: String::from("h"),
            name: String::from("Album"),
        },
        artists: vec![Artist {
            name: String::from("Band"),
        }],
        duration_ms: 1000,
        external_urls: vec![(
            String::from("spotify"),
            format!("https://open.spotify.com/track/{id}"),
        )],
        popularity: 50,
        track_number: 3,
        uri: format!("spotify:track:{id}"),
    }
}

#[test]
fn spotify_items() {
    let user = UserId(String::from("u"));
    let i = new_spotify_item(track("t1"), &user);
    assert_eq!(i.id, "spotify:track:t1");
    assert_eq!(
        i.iframe.as_deref(),
        Some("https://open.spotify.com/embed/track/t1?utm_source=generator")
    );
    assert_eq!(i.item_type, "track");
    assert_eq!(i.metadata["album"], serde_json::Value::String(String::from("Album")));
    assert_eq!(i.metadata["artists"], serde_json::Value::Array(vec![serde_json::Value::String(String::from("Band"))]));
    assert_eq!(i.metadata["track_number"], serde_json::Value::from(3));
    assert_eq!(i.metadata.len(), 5);
    assert_eq!(
        client_message(first_search_result(Vec::new(), &user).unwrap_err()),
        "Couldn't find song for query"
    );
    assert_eq!(
        first_search_result(vec![track("a"), track("b")], &user)
            .unwrap()
            .id,
        "spotify:track:a"
    );
}

#[test]
fn search_addresses_are_encoded() {
    assert_eq!(
        search_uri("Hey Jude", Some("The Beatles")),
        "https://api.spotify.com/v1/search?q=track:Hey%20Jude%20artist:The%20Beatles&type=track"
    );
    assert_eq!(
        search_uri("a&b", None),
        "https://api.spotify.com/v1/search?q=track:a%26b&type=track"
    );
}

#[test]
fn recent_plays() {
    assert_eq!(
        recent_tracks_query(3),
        "SELECT id, rating, user_score FROM item WHERE id IN (?,?,?)"
    );
    let history = RecentTracks {
        items: vec![PlayHistory { track: track("a") }, PlayHistory { track: track("b") }],
    };
    let rows = vec![KnownTrack {
        id: String::from("spotify:track:b"),
        rating: Some(4),
        user_score: Some(1600),
    }];
    let played = recent_tracks(history, &rows);
    assert_eq!(played.tracks.len(), 2);
    assert!(!played.tracks[0].added);
    assert_eq!(played.tracks[0].url, "https://open.spotify.com/track/a");
    assert!(played.tracks[1].added);
    assert_eq!(played.tracks[1].rating, Some(4));
    assert_eq!(played.tracks[1].user_score, Some(1600));
}

#[test]
fn playlist_requests_come_in_hundreds() {
    assert_eq!(
        playlist_update_uris("p", &Vec::new()),
        vec!["https://api.spotify.com/v1/playlists/p/tracks?uris="]
    );
    let ids: Vec<String> = (0..150).map(|i| format!("u{i}")).collect();
    let uris = playlist_update_uris("p", &ids);
    assert_eq!(uris.len(), 2);
    assert!(uris[0].starts_with("https://api.spotify.com/v1/playlists/p/tracks?uris=u0,u1,"));
    assert!(uris[0].ends_with(",u99"));
    assert!(uris[1].ends_with("uris=u100,u101,u102,u103,u104,u105,u106,u107,u108,u109,u110,u111,u112,u113,u114,u115,u116,u117,u118,u119,u120,u121,u122,u123,u124,u125,u126,u127,u128,u129,u130,u131,u132,u133,u134,u135,u136,u137,u138,u139,u140,u141,u142,u143,u144,u145,u146,u147,u148,u149"));
}

#[test]
fn collections_become_external_lists() {
    let id = collection_id(Collection::Album, String::from("x1"));
    assert_eq!(id.raw_id, "https://open.spotify.com/embed/album/x1?utm_source=generator");
    let source = Source {
        source_type: SourceType::ListItems(String::from("s")),
        name: String::from("My Album"),
    };
    let items = vec![item("a")];
    let l: List = external_list(id, &UserId(String::from("u")), source, &items);
    assert_eq!(l.mode, ListMode::External);
    assert_eq!(l.name, "My Album");
    assert_eq!(l.items.len(), 1);
    assert_eq!(l.items[0].id, "custom:a");
    let converted = convert_items(&items);
    assert_eq!(converted[0].score, 1500);
}

fn setlist(date: &str) -> Setlist {
    Setlist {
        event_date: date.to_owned(),
        artist: SetArtist {
            name: String::from("Band"),
        },
        venue: Venue {
            name: String::from("Hall"),
            city: City {
                name: String::from("Town"),
                state_code: String::from("ST"),
                country: Country {
                    code: String::from("US"),
                },
            },
        },
        sets: Sets {
            set: vec![
                SongSet {
                    song: vec![
                        Song {
                            name: String::from("Intro"),
                            tape: Some(true),
                            cover: None,
                        },
                        Song {
                            name: String::from("One"),
                            tape: None,
                            cover: None,
                        },
                    ],
                },
                SongSet {
                    song: vec![Song {
                        name: String::from("Two"),
                        tape: None,
                        cover: Some(SetArtist {
                            name: String::from("Other"),
                        }),
                    }],
                },
            ],
        },
        url: String::from("https://www.setlist.fm/x"),
    }
}

#[test]
fn setlists() {
    let s = setlist("23-08-2023");
    assert_eq!(
        setlist_songs(&s),
        vec![
            (String::from("One"), Some(String::from("Band"))),
            (String::from("Two"), Some(String::from("Other")))
        ]
    );
    let id = Id {
        id: String::from("i"),
        raw_id: String::from("r"),
    };
    let source = setlist_source(id.clone(), &s).unwrap();
    assert_eq!(source.name, "Aug 23, 2023 Band at Hall, Town, ST, US");
    assert_eq!(source.source_type, SourceType::Setlist(id.clone()));
    match setlist_source(id, &setlist("2023/08/23")) {
        Err(Error::InternalError(InternalError::Error(m))) => {
            assert!(m.starts_with("Unexpected date from setlist.fm: "))
        }
        other => panic!("unexpected {other:?}"),
    }
}

#[test]
fn list_queries() {
    assert_eq!(
        list_items_query(None, 2),
        "SELECT id, type, name, rating, user_score, user_wins, user_losses, hidden, metadata FROM item WHERE user_id = ?1 AND id IN (?,?)"
    );
    let fields = vec![String::from("id"), String::from("name")];
    assert_eq!(
        list_items_query(Some(&fields), 1),
        "SELECT id, name FROM item WHERE user_id = ?1 AND id IN (?)"
    );
    assert_eq!(
        insert_id_column("SELECT name, user_score FROM item"),
        "SELECT name, user_score, id  FROM item"
    );
    let quoted = quote_item_ids(&vec![ItemMetadata::new(
        String::from("x"),
        String::from("X"),
        None,
    )]);
    assert_eq!(quoted, vec!["\"x\""]);
    let ids = vec![String::from("a"), String::from("b"), String::from("c")];
    let found = vec![String::from("c"), String::from("a")];
    assert_eq!(order_by_list(&ids, &found), vec!["a", "c"]);
}

#[test]
fn google_accounts() {
    assert_eq!(google_user_id("user@gmail.com").unwrap(), "user");
    match google_user_id("nobody") {
        Err(Error::InternalError(InternalError::Error(m))) => {
            assert_eq!(m, "Received invalid email: nobody")
        }
        other => panic!("unexpected {other:?}"),
    }
    let u = User::new_google(
        String::from("k"),
        String::from("s"),
        String::from("user@gmail.com"),
    )
    .unwrap();
    assert_eq!(u.user_id, "user");
    assert_eq!(u.google_email.as_deref(), Some("user@gmail.com"));
    let creds = SpotifyCredentials {
        user_id: String::from("sp"),
        url: String::from("https://open.spotify.com/user/sp"),
        access_token: String::from("a"),
        refresh_token: String::from("r"),
    };
    let linked = u.with_spotify_credentials(creds.clone());
    assert_eq!(linked.spotify_credentials, Some(creds.clone()));
    let s = User::new_spotify(String::from("k2"), String::from("s2"), creds);
    assert_eq!(s.user_id, "sp");
    assert_eq!(s.google_email, None);
}

#[test]
fn stored_items_read_back() {
    let mut meta = serde_json::Map::new();
    meta.insert(String::from("album"), serde_json::Value::String(String::from("A")));
    let item = new_custom_item("x", &UserId(String::from("u")), String::from("X"), meta.clone());
    let raw = bops::zeroflops_web::RawItem::from_item(item);
    assert_eq!(raw.id, "custom:x");
    assert_eq!(raw.metadata, "{\"album\":\"A\"}");
    let back = Item::try_from_raw(raw.clone()).unwrap();
    assert_eq!(back.metadata, meta);
    assert_eq!(back.name, "X");
    let mut broken = raw;
    broken.metadata = String::from("[1, 2]");
    assert!(matches!(
        Item::try_from_raw(broken),
        Err(Error::InternalError(InternalError::JSONError(_)))
    ));
}

#[test]
fn spotify_tokens_of_a_user() {
    let mut u = User::new_spotify(
        String::from("k"),
        String::from("s"),
        SpotifyCredentials {
            user_id: String::from("sp"),
            url: String::new(),
            access_token: String::from("old"),
            refresh_token: String::from("refresh"),
        },
    );
    assert_eq!(refresh_token(&u).unwrap(), "refresh");
    set_access_token(&mut u, String::from("new"));
    assert_eq!(u.spotify_credentials.unwrap().access_token, "new");
    let google = User::new_google(String::from("k"), String::from("s"), String::from("a@b")).unwrap();
    assert_eq!(
        client_message(refresh_token(&google).unwrap_err()),
        "User hasn't set up Spotify auth"
    );
}

#[test]
fn collection_pages_become_items() {
    assert_eq!(playlist_url("p"), "https://api.spotify.com/v1/playlists/p?limit=50");
    assert_eq!(playlist_items_url("p"), "https://api.spotify.com/v1/playlists/p/tracks");
    assert_eq!(album_url("a"), "https://api.spotify.com/v1/albums/a");
    assert_eq!(album_tracks_url("a"), "https://api.spotify.com/v1/albums/a/tracks?limit=50");
    assert_eq!(track_url("t"), "https://api.spotify.com/v1/tracks/t");
    let user = UserId(String::from("u"));
    let mut pages = TrackPages::new();
    let next = pages.take_page(vec![track("a"), track("b")], Some(String::from("page2")), &user);
    assert_eq!(next.as_deref(), Some("page2"));
    assert_eq!(pages.take_page(vec![track("c")], None, &user), None);
    let ids: Vec<_> = pages.items.iter().map(|i| i.id.clone()).collect();
    assert_eq!(ids, vec!["spotify:track:a", "spotify:track:b", "spotify:track:c"]);
    let id = Id {
        id: String::from("p"),
        raw_id: String::from("r"),
    };
    let source = spotify_source(bops::zeroflops_wasm::SpotifyKind::Playlist, id.clone(), String::from("Mix"));
    assert_eq!(source.name, "Mix");
    assert_eq!(
        source.source_type,
        SourceType::Spotify(bops::zeroflops::Spotify::Playlist(id))
    );
}

#[test]
fn playlist_requests() {
    assert_eq!(
        user_playlists_url(&UserId(String::from("me"))),
        "https://api.spotify.com/v1/users/me/playlists"
    );
    assert_eq!(playlist_details_url("p"), "https://api.spotify.com/v1/playlists/p");
    match playlist_update_error("Forbidden") {
        Error::InternalError(InternalError::Error(m)) => {
            assert_eq!(m, "Spotify update playlist items error: Forbidden")
        }
        other => panic!("unexpected {other:?}"),
    }
}

#[test]
fn custom_sources_read_their_entries() {
    type Map = serde_json::Map<String, serde_json::Value>;
    type Value = serde_json::Value;
    let mut object = Map::new();
    object.insert(String::from("id"), Value::String(String::from("7")));
    object.insert(String::from("name"), Value::String(String::from("Seven")));
    object.insert(String::from("year"), Value::from(1999));
    let mut no_name = Map::new();
    no_name.insert(String::from("id"), Value::String(String::from("8")));
    no_name.insert(String::from("name"), Value::from(8));
    let value = Value::Array(vec![
        Value::String(String::from("song")),
        Value::Object(object),
        Value::Object(no_name),
        Value::Bool(true),
    ]);
    let mut rest = Map::new();
    rest.insert(String::from("year"), Value::from(1999));
    assert_eq!(
        custom_values(&value),
        Some(vec![
            CustomValue::Text(String::from("song")),
            CustomValue::Object(Some(String::from("7")), Some(String::from("Seven")), rest),
            CustomValue::Object(Some(String::from("8")), None, Map::new()),
            CustomValue::Other,
        ])
    );
    assert_eq!(custom_values(&Value::String(String::from("x"))), None);
}
