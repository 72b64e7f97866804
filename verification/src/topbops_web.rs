pub mod query;

use vstd::prelude::*;

verus! {

/// The id of the user whose data a request may touch.
#[derive(Clone, Debug, PartialEq, Eq)]
pub struct UserId(pub String);

/// The tokens that Spotify hands out.
#[derive(Clone, Debug, PartialEq, Eq)]
pub struct Token {
    pub access_token: String,
    pub refresh_token: Option<String>,
}

/// An error of a query: what the parser or the rewriting refused.
#[derive(Debug, PartialEq, Eq)]
pub enum Error {
    SqlError(String),
}

/// A Spotify account, as the import reads it: its id.
#[derive(Clone, Debug, PartialEq, Eq)]
pub struct User {
    pub id: String,
}

} // verus!
