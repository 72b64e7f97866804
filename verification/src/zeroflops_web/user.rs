use crate::spotify::SpotifyCredentials;
use crate::text::{before_first, find_char};
use crate::zeroflops::{Error, InternalError};
use vstd::prelude::*;

verus! {

/// An account of the service: its key, its user name, the secret that its session
/// is checked against, and the outside identities linked to it.
#[derive(Clone, Debug, PartialEq, Eq)]
pub struct User {
    pub id: String,
    pub user_id: String,
    pub secret: String,
    pub spotify_credentials: Option<SpotifyCredentials>,
    pub google_email: Option<String>,
}

/// An account as the database stores it: the Spotify credentials as JSON text.
#[derive(Clone, Debug, PartialEq, Eq)]
pub struct RawUser {
    pub id: String,
    pub user_id: String,
    pub secret: String,
    pub spotify_credentials: Option<String>,
    pub google_email: Option<String>,
}

/// The token that Google hands out.
#[derive(Clone, Debug, PartialEq, Eq)]
pub struct GoogleCredentials {
    pub access_token: String,
}

/// A Google account, by its address.
#[derive(Clone, Debug, PartialEq, Eq)]
pub struct GoogleUser {
    pub email: String,
}

/// The parameters of a statement: two by position, or the named fields of a value.
pub enum Param<'a, T> {
    Positional(&'a [&'a str; 2]),
    Named(T),
}

/// The client that signs users in with Google.
#[derive(Clone, Copy, Debug, PartialEq, Eq, Structural)]
pub struct GoogleClient;

/// The sessions and accounts kept in the SQLite database at `path`.
#[derive(Clone, Debug, PartialEq, Eq)]
pub struct SqlStore {
    pub path: &'static str,
}

/// The statement that links Spotify credentials to an account (parameters: the
/// credentials as JSON, the account's key).
pub const UPDATE_SPOTIFY_CREDENTIALS: &'static str = "UPDATE user SET spotify_credentials = ?1 WHERE id = ?2";

/// The statement that finds the account linked to a Spotify user (parameter: the
/// Spotify user id).
pub const SELECT_BY_SPOTIFY_USER: &'static str = "SELECT * FROM user WHERE spotify_credentials->'user_id' = ?1";

/// The statement that links a Google address to an account (parameters: the address,
/// the account's key).
pub const UPDATE_GOOGLE_EMAIL: &'static str = "UPDATE user SET google_email = ?1 WHERE id = ?2";

/// The statement that finds the account linked to a Google address.
pub const SELECT_BY_GOOGLE_EMAIL: &'static str = "SELECT * FROM user WHERE google_email = ?1";

/// The statement that adds an account (its fields by name).
pub const INSERT_USER: &'static str = "INSERT INTO user (id, user_id, secret, spotify_credentials, google_email) VALUES (:id, :user_id, :secret, :spotify_credentials, :google_email)";

/// The message of the error for an address without `@`.
pub open spec fn invalid_email_message(email: Seq<char>) -> Seq<char> {
    "Received invalid email: "@ + email
}

/// The user name that a Google address gives: the part before its first `@`; a
/// server error where it has none.
pub fn google_user_id(email: &str) -> (r: Result<String, Error>)
    ensures
        match r {
            Ok(u) => email@.contains('@') && u@ == before_first(email@, '@'),
            Err(e) => !email@.contains('@') && (e matches Error::InternalError(InternalError::Error(m)) && m@
                == invalid_email_message(email@)),
        },
{
    match find_char(email, '@') {
        Some(i) => {
            proof {
                assert(email@[i as int] == '@');
                let k = choose|k: int| crate::text::is_first_index(email@, '@', k);
                crate::text::lemma_first_index_unique(email@, '@', i as int, k);
            }
            Ok(String::from_str(email.substring_char(0, i)))
        },
        None => Err(
            Error::InternalError(InternalError::Error(String::from_str("Received invalid email: ").concat(email))),
        ),
    }
}

impl User {
    /// A new account for a Spotify user: named after the Spotify user, with the given
    /// key and secret, and no Google address.
    pub fn new_spotify(id: String, secret: String, credentials: SpotifyCredentials) -> (r: User)
        ensures
            r.id == id,
            r.user_id == credentials.user_id,
            r.secret == secret,
            r.google_email is None,
            r.spotify_credentials == Some(credentials),
    {
        User {
            id,
            user_id: credentials.user_id.clone(),
            secret,
            google_email: None,
            spotify_credentials: Some(credentials),
        }
    }

    /// A new account for a Google address: named after the part before the `@`, with
    /// the given key and secret, and no Spotify credentials; a server error for an
    /// address without `@`.
    pub fn new_google(id: String, secret: String, email: String) -> (r: Result<User, Error>)
        ensures
            match r {
                Ok(u) => email@.contains('@') && u.id == id && u.user_id@ == before_first(email@, '@')
                    && u.secret == secret && u.google_email == Some(email) && u.spotify_credentials is None,
                Err(e) => !email@.contains('@') && (e matches Error::InternalError(InternalError::Error(m)) && m@
                    == invalid_email_message(email@)),
            },
    {
        let user_id = match google_user_id(email.as_str()) {
            Ok(u) => u,
            Err(e) => return Err(e),
        };
        Ok(User { id, user_id, secret, google_email: Some(email), spotify_credentials: None })
    }

    /// The account with its Spotify credentials replaced by fresh ones.
    pub fn with_spotify_credentials(self, credentials: SpotifyCredentials) -> (r: User)
        ensures
            r == (User { spotify_credentials: Some(credentials), ..self }),
    {
        User { spotify_credentials: Some(credentials), ..self }
    }
}

/// The refresh token of the user's Spotify credentials; a client error for a user who
/// has not linked Spotify.
pub fn refresh_token(user: &User) -> (r: Result<&String, Error>)
    ensures
        match user.spotify_credentials {
            Some(c) => r matches Ok(t) && *t == c.refresh_token,
            None => r matches Err(e) && e.client_message() == Some("User hasn't set up Spotify auth"@),
        },
{
    match &user.spotify_credentials {
        Some(c) => Ok(&c.refresh_token),
        None => Err(Error::client_error("User hasn't set up Spotify auth")),
    }
}

/// Stores a fresh access token in the user's Spotify credentials.
pub fn set_access_token(user: &mut User, token: String)
    requires
        old(user).spotify_credentials is Some,
    ensures
        final(user).spotify_credentials == Some(
            SpotifyCredentials { access_token: token, ..old(user).spotify_credentials->0 },
        ),
        final(user).id == old(user).id,
        final(user).user_id == old(user).user_id,
        final(user).secret == old(user).secret,
        final(user).google_email == old(user).google_email,
{
    match &mut user.spotify_credentials {
        Some(c) => c.access_token = token,
        None => {},
    }
}

} // verus!
