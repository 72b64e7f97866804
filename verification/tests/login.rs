use bops::spotify::SpotifyCredentials;
use bops::zeroflops::{Error, InternalError};
use bops::zeroflops_web::login::{login_step, Identity, LoginAction, LoginEvent, LoginState};
use bops::zeroflops_web::user::User;

fn credentials() -> SpotifyCredentials {
    SpotifyCredentials {
        user_id: "user".to_owned(),
        url: String::new(),
        access_token: "test".to_owned(),
        refresh_token: String::new(),
    }
}

fn empty_user() -> User {
    User {
        id: String::new(),
        user_id: String::new(),
        secret: String::new(),
        spotify_credentials: None,
        google_email: None,
    }
}

fn step(state: LoginState, event: LoginEvent) -> (LoginState, Vec<LoginAction>) {
    login_step(state, event).unwrap()
}

#[test]
fn login_spotify_new_user() {
    let (state, actions) = step(
        LoginState::Start,
        LoginEvent::Verified(Identity::Spotify(credentials()), None),
    );
    assert_eq!(actions, vec![LoginAction::FindBySpotifyUser("user".to_owned())]);
    assert_eq!(
        actions[0].statement(),
        Some("SELECT * FROM user WHERE spotify_credentials->'user_id' = ?1")
    );
    let (state, actions) = step(state, LoginEvent::Found(None));
    assert_eq!(actions, vec![LoginAction::NewAccountKeys]);
    let (state, actions) = step(
        state,
        LoginEvent::Keys("key".to_owned(), "secret".to_owned()),
    );
    assert_eq!(state, LoginState::Done);
    let expected = User {
        id: "key".to_owned(),
        user_id: "user".to_owned(),
        secret: "secret".to_owned(),
        spotify_credentials: Some(credentials()),
        google_email: None,
    };
    assert_eq!(
        actions,
        vec![
            LoginAction::InsertUser(expected.clone()),
            LoginAction::Login(expected)
        ]
    );
    assert_eq!(
        actions[0].statement(),
        Some("INSERT INTO user (id, user_id, secret, spotify_credentials, google_email) VALUES (:id, :user_id, :secret, :spotify_credentials, :google_email)")
    );
}

#[test]
fn login_spotify_existing_user() {
    let (state, _) = step(
        LoginState::Start,
        LoginEvent::Verified(Identity::Spotify(credentials()), None),
    );
    let (state, actions) = step(state, LoginEvent::Found(Some(empty_user())));
    assert_eq!(state, LoginState::Done);
    assert_eq!(
        actions,
        vec![
            LoginAction::UpdateSpotifyCredentials(credentials(), String::new()),
            LoginAction::Login(User {
                spotify_credentials: Some(credentials()),
                ..empty_user()
            })
        ]
    );
    assert_eq!(
        actions[0].statement(),
        Some("UPDATE user SET spotify_credentials = ?1 WHERE id = ?2")
    );
}

#[test]
fn login_add_spotify_to_session() {
    let (state, actions) = step(
        LoginState::Start,
        LoginEvent::Verified(Identity::Spotify(credentials()), Some(String::new())),
    );
    assert_eq!(state, LoginState::Done);
    assert_eq!(
        actions,
        vec![LoginAction::UpdateSpotifyCredentials(
            credentials(),
            String::new()
        )]
    );
}

#[test]
fn login_google_new_user() {
    let google = Identity::Google("user@gmail.com".to_owned());
    let (state, actions) = step(LoginState::Start, LoginEvent::Verified(google, None));
    assert_eq!(
        actions,
        vec![LoginAction::FindByGoogleEmail("user@gmail.com".to_owned())]
    );
    assert_eq!(
        actions[0].statement(),
        Some("SELECT * FROM user WHERE google_email = ?1")
    );
    let (state, _) = step(state, LoginEvent::Found(None));
    let (_, actions) = step(state, LoginEvent::Keys("k".to_owned(), "s".to_owned()));
    let expected = User {
        id: "k".to_owned(),
        user_id: "user".to_owned(),
        secret: "s".to_owned(),
        spotify_credentials: None,
        google_email: Some("user@gmail.com".to_owned()),
    };
    assert_eq!(
        actions,
        vec![
            LoginAction::InsertUser(expected.clone()),
            LoginAction::Login(expected)
        ]
    );
}

#[test]
fn login_google_existing_user_and_session() {
    let google = Identity::Google("user@gmail.com".to_owned());
    let (state, _) = step(LoginState::Start, LoginEvent::Verified(google.clone(), None));
    let (state, actions) = step(state, LoginEvent::Found(Some(empty_user())));
    assert_eq!(state, LoginState::Done);
    assert_eq!(actions, vec![LoginAction::Login(empty_user())]);

    let (_, actions) = step(
        LoginState::Start,
        LoginEvent::Verified(google, Some(String::new())),
    );
    assert_eq!(
        actions,
        vec![LoginAction::UpdateGoogleEmail(
            "user@gmail.com".to_owned(),
            String::new()
        )]
    );
    assert_eq!(
        actions[0].statement(),
        Some("UPDATE user SET google_email = ?1 WHERE id = ?2")
    );
}

#[test]
fn login_google_address_without_at() {
    let (state, _) = step(
        LoginState::Start,
        LoginEvent::Verified(Identity::Google("nobody".to_owned()), None),
    );
    let (state, _) = step(state, LoginEvent::Found(None));
    match login_step(state, LoginEvent::Keys("k".to_owned(), "s".to_owned())) {
        Err(Error::InternalError(InternalError::Error(m))) => {
            assert_eq!(m, "Received invalid email: nobody")
        }
        other => panic!("unexpected {other:?}"),
    }
}
