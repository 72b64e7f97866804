use crate::text::str_eq;
use crate::zeroflops::Error;
use vstd::prelude::*;

verus! {

/// The tokens that Spotify hands out.
#[derive(Clone, Debug, PartialEq, Eq)]
pub struct Token {
    pub access_token: String,
    pub refresh_token: Option<String>,
}

/// A Spotify account, with its links by site: pairs of site name and address.
#[derive(Clone, Debug, PartialEq, Eq)]
pub struct User {
    pub id: String,
    pub external_urls: Vec<(String, String)>,
}

/// What the service keeps of a user's Spotify account.
#[derive(Clone, Debug, PartialEq, Eq)]
pub struct SpotifyCredentials {
    pub user_id: String,
    pub url: String,
    pub access_token: String,
    pub refresh_token: String,
}

/// The client that signs users in with Spotify.
#[derive(Clone, Copy, Debug, PartialEq, Eq, Structural)]
pub struct SpotifyClient;

/// Whether position `i` holds the first link of the site `site`.
pub open spec fn is_first_link(links: Seq<(String, String)>, site: Seq<char>, i: int) -> bool {
    0 <= i < links.len() && links[i].0@ == site && forall|j: int| 0 <= j < i ==> #[trigger] links[j].0@ != site
}

/// Whether some link is for the site `site`.
pub open spec fn has_link(links: Seq<(String, String)>, site: Seq<char>) -> bool {
    exists|i: int| 0 <= i < links.len() && #[trigger] links[i].0@ == site
}

/// The address of the first link for the site `site`.
pub fn link_for<'a>(links: &'a Vec<(String, String)>, site: &str) -> (r: &'a String)
    requires
        has_link(links@, site@),
    ensures
        exists|i: int| is_first_link(links@, site@, i) && links@[i].1 == *r,
{
    let mut i: usize = 0;
    while i < links.len()
        invariant
            i <= links@.len(),
            has_link(links@, site@),
            forall|j: int| 0 <= j < i ==> #[trigger] links@[j].0@ != site@,
        decreases links.len() - i,
    {
        if str_eq(links[i].0.as_str(), site) {
            assert(is_first_link(links@, site@, i as int));
            return &links[i].1;
        }
        i = i + 1;
    }
    proof {
        let w = choose|w: int| 0 <= w < links@.len() && #[trigger] links@[w].0@ == site@;
        assert(links@[w].0@ != site@);
    }
    &links[0].1
}

impl SpotifyClient {
    /// The credentials kept of a Spotify account signed in with `token`: its id and
    /// Spotify address, and both tokens; a server error where Spotify sent no
    /// refresh token.
    pub fn credentials(user: User, token: Token) -> (r: Result<SpotifyCredentials, Error>)
        requires
            has_link(user.external_urls@, "spotify"@),
        ensures
            match token.refresh_token {
                Some(refresh) => r matches Ok(c) && c.user_id == user.id && (exists|i: int|
                    is_first_link(user.external_urls@, "spotify"@, i) && user.external_urls@[i].1 == c.url)
                    && c.access_token == token.access_token && c.refresh_token == refresh,
                None => r matches Err(Error::InternalError(crate::zeroflops::InternalError::Error(m))) && m@
                    == "Spotify did not return refresh_token"@,
            },
    {
        let url = link_for(&user.external_urls, "spotify").clone();
        match token.refresh_token {
            Some(refresh_token) => Ok(
                SpotifyCredentials { user_id: user.id, url, access_token: token.access_token, refresh_token },
            ),
            None => Err(Error::internal_error("Spotify did not return refresh_token")),
        }
    }
}

} // verus!
