use crate::spotify::SpotifyCredentials;
use crate::text::before_first;
use crate::zeroflops::{Error, InternalError};
use crate::zeroflops_web::user::{
    INSERT_USER, SELECT_BY_GOOGLE_EMAIL, SELECT_BY_SPOTIFY_USER, UPDATE_GOOGLE_EMAIL, UPDATE_SPOTIFY_CREDENTIALS, User,
    invalid_email_message,
};
use vstd::prelude::*;

verus! {

/// Who signs in: a Spotify user with the credentials that Spotify just handed out,
/// or a Google address.
#[derive(Clone, Debug, PartialEq, Eq)]
pub enum Identity {
    Spotify(SpotifyCredentials),
    Google(String),
}

/// Where a sign-in stands: waiting for the provider, looking the identity up, making
/// a new account for it, or finished.
#[derive(Clone, Debug, PartialEq, Eq)]
pub enum LoginState {
    Start,
    Looking(Identity),
    Creating(Identity),
    Done,
}

/// What the outside world reports to a sign-in.
pub enum LoginEvent {
    /// The provider vouched for the identity; the key of the account that is signed
    /// in already, if any.
    Verified(Identity, Option<String>),
    /// The account that the lookup found, if any.
    Found(Option<User>),
    /// A fresh key and secret for a new account.
    Keys(String, String),
}

/// The outside work that a step of a sign-in asks for, in order.
#[derive(Debug, PartialEq, Eq)]
pub enum LoginAction {
    /// Store the credentials (as JSON) on the account with this key.
    UpdateSpotifyCredentials(SpotifyCredentials, String),
    /// Store the address on the account with this key.
    UpdateGoogleEmail(String, String),
    /// Look up the account linked to this Spotify user id.
    FindBySpotifyUser(String),
    /// Look up the account linked to this address.
    FindByGoogleEmail(String),
    /// Draw a key and a secret for a new account.
    NewAccountKeys,
    /// Add the account.
    InsertUser(User),
    /// Start a session for the account.
    Login(User),
}

impl LoginAction {
    /// The statement that the action runs on the accounts table, if it runs one.
    pub fn statement(&self) -> (r: Option<&'static str>)
        ensures
            match *self {
                LoginAction::UpdateSpotifyCredentials(..) => r matches Some(s) && s@ == UPDATE_SPOTIFY_CREDENTIALS@,
                LoginAction::UpdateGoogleEmail(..) => r matches Some(s) && s@ == UPDATE_GOOGLE_EMAIL@,
                LoginAction::FindBySpotifyUser(_) => r matches Some(s) && s@ == SELECT_BY_SPOTIFY_USER@,
                LoginAction::FindByGoogleEmail(_) => r matches Some(s) && s@ == SELECT_BY_GOOGLE_EMAIL@,
                LoginAction::InsertUser(_) => r matches Some(s) && s@ == INSERT_USER@,
                _ => r is None,
            },
    {
        match self {
            LoginAction::UpdateSpotifyCredentials(..) => Some(UPDATE_SPOTIFY_CREDENTIALS),
            LoginAction::UpdateGoogleEmail(..) => Some(UPDATE_GOOGLE_EMAIL),
            LoginAction::FindBySpotifyUser(_) => Some(SELECT_BY_SPOTIFY_USER),
            LoginAction::FindByGoogleEmail(_) => Some(SELECT_BY_GOOGLE_EMAIL),
            LoginAction::InsertUser(_) => Some(INSERT_USER),
            _ => None,
        }
    }
}

/// Whether the event can come in the state: the provider's answer at the start, a
/// lookup's result while looking, fresh keys while creating.
pub open spec fn fits(state: LoginState, event: LoginEvent) -> bool {
    match (state, event) {
        (LoginState::Start, LoginEvent::Verified(..)) => true,
        (LoginState::Looking(_), LoginEvent::Found(_)) => true,
        (LoginState::Creating(_), LoginEvent::Keys(..)) => true,
        _ => false,
    }
}

/// The new account for an identity: a Spotify user's is named after the Spotify user;
/// a Google address's after the part before its `@` (none where it has no `@`).
pub open spec fn new_account(identity: Identity, key: String, secret: String) -> Option<User> {
    match identity {
        Identity::Spotify(c) => Some(
            User { id: key, user_id: c.user_id, secret, spotify_credentials: Some(c), google_email: None },
        ),
        Identity::Google(email) => if email@.contains('@') {
            Some(
                User {
                    id: key,
                    user_id: choose|u: String| u@ == before_first(email@, '@'),
                    secret,
                    spotify_credentials: None,
                    google_email: Some(email),
                },
            )
        } else {
            None
        },
    }
}

/// Whether `u` is the new account for the identity with the key and secret: the one
/// of `new_account`, its user name compared by its characters.
pub open spec fn is_new_account(identity: Identity, key: String, secret: String, u: User) -> bool {
    new_account(identity, key, secret) matches Some(n) && u.id == n.id && u.user_id@ == n.user_id@ && u.secret
        == n.secret && u.spotify_credentials == n.spotify_credentials && u.google_email == n.google_email
}

/// A copy of the credentials.
fn copy_credentials(c: &SpotifyCredentials) -> (r: SpotifyCredentials)
    ensures
        r == *c,
{
    SpotifyCredentials {
        user_id: c.user_id.clone(),
        url: c.url.clone(),
        access_token: c.access_token.clone(),
        refresh_token: c.refresh_token.clone(),
    }
}

/// A copy of the account.
fn copy_user(u: &User) -> (r: User)
    ensures
        r == *u,
{
    User {
        id: u.id.clone(),
        user_id: u.user_id.clone(),
        secret: u.secret.clone(),
        spotify_credentials: match &u.spotify_credentials {
            Some(c) => Some(copy_credentials(c)),
            None => None,
        },
        google_email: match &u.google_email {
            Some(e) => Some(e.clone()),
            None => None,
        },
    }
}

/// Takes one step of a sign-in. Signed in already, the identity is linked to that
/// account and nothing more happens. Otherwise the identity is looked up: a Spotify
/// user's account gets the fresh credentials stored and on it, a Google account is
/// taken as it is, and either is signed in; without an account, a new one is made from
/// fresh keys, added and signed in. A Google address without `@` gets a server error.
pub fn login_step(state: LoginState, event: LoginEvent) -> (r: Result<(LoginState, Vec<LoginAction>), Error>)
    requires
        fits(state, event),
    ensures
        match (state, event) {
            (LoginState::Start, LoginEvent::Verified(identity, Some(account))) => r matches Ok((s, a)) && s
                == LoginState::Done && a@ == seq![
                match identity {
                    Identity::Spotify(c) => LoginAction::UpdateSpotifyCredentials(c, account),
                    Identity::Google(e) => LoginAction::UpdateGoogleEmail(e, account),
                },
            ],
            (LoginState::Start, LoginEvent::Verified(identity, None)) => r matches Ok((s, a)) && s == LoginState::Looking(
                identity,
            ) && a@ == seq![
                match identity {
                    Identity::Spotify(c) => LoginAction::FindBySpotifyUser(c.user_id),
                    Identity::Google(e) => LoginAction::FindByGoogleEmail(e),
                },
            ],
            (LoginState::Looking(identity), LoginEvent::Found(Some(u))) => r matches Ok((s, a)) && s == LoginState::Done
                && a@ == match identity {
                Identity::Spotify(c) => seq![
                    LoginAction::UpdateSpotifyCredentials(c, u.id),
                    LoginAction::Login(User { spotify_credentials: Some(c), ..u }),
                ],
                Identity::Google(_) => seq![LoginAction::Login(u)],
            },
            (LoginState::Looking(identity), LoginEvent::Found(None)) => r matches Ok((s, a)) && s
                == LoginState::Creating(identity) && a@ == seq![LoginAction::NewAccountKeys],
            (LoginState::Creating(identity), LoginEvent::Keys(key, secret)) => match new_account(
                identity,
                key,
                secret,
            ) {
                Some(_) => r matches Ok((s, a)) && s == LoginState::Done && a@.len() == 2 && (a@[0] matches LoginAction::InsertUser(u)
                    && is_new_account(identity, key, secret, u) && a@[1] == LoginAction::Login(u)),
                None => r matches Err(Error::InternalError(InternalError::Error(m))) && (identity matches Identity::Google(
                    e,
                ) && m@ == invalid_email_message(e@)),
            },
            _ => false,
        },
{
    match (state, event) {
        (LoginState::Start, LoginEvent::Verified(identity, Some(account))) => {
            let action = match identity {
                Identity::Spotify(c) => LoginAction::UpdateSpotifyCredentials(c, account),
                Identity::Google(e) => LoginAction::UpdateGoogleEmail(e, account),
            };
            Ok((LoginState::Done, vec![action]))
        },
        (LoginState::Start, LoginEvent::Verified(identity, None)) => {
            let action = match &identity {
                Identity::Spotify(c) => LoginAction::FindBySpotifyUser(c.user_id.clone()),
                Identity::Google(e) => LoginAction::FindByGoogleEmail(e.clone()),
            };
            Ok((LoginState::Looking(identity), vec![action]))
        },
        (LoginState::Looking(identity), LoginEvent::Found(Some(u))) => match identity {
            Identity::Spotify(c) => {
                let stored = LoginAction::UpdateSpotifyCredentials(copy_credentials(&c), u.id.clone());
                let refreshed = User { spotify_credentials: Some(c), ..u };
                Ok((LoginState::Done, vec![stored, LoginAction::Login(refreshed)]))
            },
            Identity::Google(_) => Ok((LoginState::Done, vec![LoginAction::Login(u)])),
        },
        (LoginState::Looking(identity), LoginEvent::Found(None)) => Ok(
            (LoginState::Creating(identity), vec![LoginAction::NewAccountKeys]),
        ),
        (LoginState::Creating(identity), LoginEvent::Keys(key, secret)) => {
            let ghost id0 = identity;
            let ghost k0 = key;
            let ghost s0 = secret;
            let created = match identity {
                Identity::Spotify(c) => User::new_spotify(key, secret, c),
                Identity::Google(e) => match User::new_google(key, secret, e) {
                    Ok(u) => u,
                    Err(err) => return Err(err),
                },
            };
            assert(is_new_account(id0, k0, s0, created));
            let copy = copy_user(&created);
            Ok((LoginState::Done, vec![LoginAction::InsertUser(created), LoginAction::Login(copy)]))
        },
        _ => {
            assert(false);
            Err(Error::NotFound)
        },
    }
}

} // verus!
