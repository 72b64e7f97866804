use bops::zeroflops::{Error, Id, List, ListMode, Source, SourceType, Spotify, UserId};
use bops::zeroflops_web::push::{push_step, PushAction, PushEvent, PushState};

fn list(mode: ListMode) -> List {
    List::new(
        String::from("l"),
        &UserId(String::from("u")),
        mode,
        String::from("Road Trip"),
        vec![Source {
            source_type: SourceType::Spotify(Spotify::Album(Id {
                id: String::from("a"),
                raw_id: String::from("ra"),
            })),
            name: String::from("Album"),
        }],
        None,
        Vec::new(),
    )
}

fn step(state: PushState, event: PushEvent) -> (PushState, PushAction) {
    push_step(state, event).unwrap()
}

#[test]
fn push_renames_an_existing_playlist() {
    let playlist = Id {
        id: String::from("p1"),
        raw_id: String::from("rp1"),
    };
    let l = list(ListMode::User(Some(playlist)));
    let (state, action) = step(PushState::Start, PushEvent::ListLoaded(l.clone()));
    assert_eq!(action, PushAction::GetAccessToken);
    let (state, action) = step(state, PushEvent::Token);
    assert_eq!(
        action,
        PushAction::RenamePlaylist(String::from("p1"), String::from("Road Trip"))
    );
    let (state, action) = step(state, PushEvent::Renamed);
    assert_eq!(action, PushAction::ListItemIds(l));
    let (state, action) = step(state, PushEvent::ItemIds(vec![String::from("t1")]));
    assert!(matches!(state, PushState::Done));
    assert_eq!(
        action,
        PushAction::ReplaceTracks(String::from("p1"), vec![String::from("t1")])
    );
}

#[test]
fn push_creates_a_playlist_when_there_is_none() {
    let (state, _) = step(
        PushState::Start,
        PushEvent::ListLoaded(list(ListMode::View(None))),
    );
    let (state, action) = step(state, PushEvent::Token);
    assert_eq!(action, PushAction::CreatePlaylist(String::from("Road Trip")));
    let links = vec![(
        String::from("spotify"),
        String::from("https://open.spotify.com/playlist/new"),
    )];
    let (state, action) = step(state, PushEvent::Created(String::from("new"), links));
    assert_eq!(action, PushAction::SaveList);
    let saved = match &state {
        PushState::Saving(l, t) => {
            assert_eq!(t, "new");
            l.clone()
        }
        _ => panic!("not saving"),
    };
    assert_eq!(
        saved.mode,
        ListMode::View(Some(Id {
            id: String::from("new"),
            raw_id: String::from("https://open.spotify.com/playlist/new"),
        }))
    );
    let (_, action) = step(state, PushEvent::Saved);
    assert_eq!(action, PushAction::ViewItemIds(saved));
}

#[test]
fn push_refuses_external_lists() {
    match push_step(
        PushState::Start,
        PushEvent::ListLoaded(list(ListMode::External)),
    ) {
        Err(Error::ClientError(m)) => assert_eq!(m, "Push is not supported for this list type"),
        Err(e) => panic!("unexpected {e:?}"),
        Ok(_) => panic!("an external list was pushed"),
    }
}
