use crate::rating::{elo_gain, update_stats};
use crate::text::{before_first, str_eq};
use crate::zeroflops::{Error, Id, ItemMetadata, List, ListMode, User as PublicUser};
use crate::zeroflops_web::user::User;
use crate::zeroflops_web::{Item, UserId};
use vstd::prelude::*;

verus! {

/// The user whose data a request sees: the one signed in, or the demo user.
pub fn get_user_or_demo_user(user: Option<&User>) -> (r: UserId)
    ensures
        match user {
            Some(u) => r.0 == u.user_id,
            None => r.0@ == "demo"@,
        },
{
    match user {
        Some(u) => UserId(u.user_id.clone()),
        None => UserId(String::from_str("demo")),
    }
}

/// The query for a user's lists: only the favorites when asked with `favorite=true`.
pub fn lists_query(favorite: Option<&str>) -> (r: &'static str)
    ensures
        r@ == if favorite matches Some(f) && f@ == "true"@ {
            "SELECT * FROM list WHERE favorite = true"@
        } else {
            "SELECT * FROM list"@
        },
{
    match favorite {
        Some(f) => if str_eq(f, "true") {
            "SELECT * FROM list WHERE favorite = true"
        } else {
            "SELECT * FROM list"
        },
        None => "SELECT * FROM list",
    }
}

/// A new, empty list of the user, called `New List`.
pub fn new_list(id: String, user_id: String) -> (r: List)
    ensures
        r.id == id,
        r.user_id == user_id,
        r.mode == ListMode::User(None),
        r.name@ == "New List"@,
        r.sources@.len() == 0,
        r.iframe is None,
        r.items@.len() == 0,
        !r.favorite,
        r.query@ == crate::zeroflops::default_list_query(),
        !r.public,
{
    List {
        id,
        user_id,
        mode: ListMode::User(None),
        name: String::from_str("New List"),
        sources: Vec::new(),
        iframe: None,
        items: Vec::new(),
        favorite: false,
        query: String::from_str("SELECT name, user_score FROM item"),
        public: false,
    }
}

/// Refuses a list sent for another id than the one in the address.
pub fn check_list_id(list: &List, id: &str) -> (r: Result<(), Error>)
    ensures
        match r {
            Ok(()) => list.id@ == id@,
            Err(e) => list.id@ != id@ && e.client_message() == Some("list id doesn't match"@),
        },
{
    if str_eq(list.id.as_str(), id) {
        Ok(())
    } else {
        Err(Error::client_error("list id doesn't match"))
    }
}

/// What the public view of an account shows: the user name and the linked accounts.
pub fn public_user(user: User) -> (r: PublicUser)
    ensures
        r.user_id == user.user_id,
        r.spotify_user == (match user.spotify_credentials {
            Some(c) => Some(c.user_id),
            None => None,
        }),
        r.spotify_url == (match user.spotify_credentials {
            Some(c) => Some(c.url),
            None => None,
        }),
        r.google_email == user.google_email,
{
    let (spotify_user, spotify_url) = match user.spotify_credentials {
        Some(c) => (Some(c.user_id), Some(c.url)),
        None => (None, None),
    };
    PublicUser { user_id: user.user_id, spotify_user, spotify_url, google_email: user.google_email }
}

/// Whether position `k` holds the last parameter named `name`.
pub open spec fn is_last_param(params: Seq<(String, String)>, name: Seq<char>, k: int) -> bool {
    0 <= k < params.len() && params[k].0@ == name && forall|j: int| k < j < params.len() ==> #[trigger] params[j].0@ != name
}

/// The value of the parameter `name`: the last one given, as a map of the query
/// string keeps it.
pub open spec fn param(params: Seq<(String, String)>, name: Seq<char>) -> Option<Seq<char>> {
    if exists|k: int| is_last_param(params, name, k) {
        Some(params[choose|k: int| is_last_param(params, name, k)].1@)
    } else {
        None
    }
}

/// The value of the parameter `name` (see `param`).
pub fn get_param<'a>(params: &'a Vec<(String, String)>, name: &str) -> (r: Option<&'a String>)
    ensures
        match r {
            Some(v) => param(params@, name@) == Some(v@),
            None => param(params@, name@) is None,
        },
{
    let mut k: usize = params.len();
    while k > 0
        invariant
            k <= params@.len(),
            forall|j: int| k <= j < params@.len() ==> #[trigger] params@[j].0@ != name@,
        decreases k,
    {
        if str_eq(params[k - 1].0.as_str(), name) {
            proof {
                let c = choose|c: int| is_last_param(params@, name@, c);
                assert(is_last_param(params@, name@, (k - 1) as int));
                if c < k - 1 {
                    assert(params@[k - 1].0@ != name@);
                } else if c > k - 1 {
                    assert(params@[c].0@ != name@);
                }
            }
            return Some(&params[k - 1].1);
        }
        k = k - 1;
    }
    proof {
        if exists|c: int| is_last_param(params@, name@, c) {
            let c = choose|c: int| is_last_param(params@, name@, c);
            assert(params@[c].0@ != name@);
        }
    }
    None
}

/// The operations that the action endpoint runs.
#[derive(Debug, PartialEq, Eq)]
pub enum ActionRequest {
    /// Record a match of the list: the winner's id, then the loser's.
    Update { list: String, win: String, lose: String },
    /// Push the list to its outside playlist.
    Push { list: String },
    /// Import the outside source `source` with the given id.
    Import { source: String, id: String },
    /// Apply the item changes in the body.
    UpdateItems,
}

/// Why the action endpoint refuses a request.
#[derive(Debug, PartialEq, Eq)]
pub enum ActionError {
    /// The action needs a signed-in user.
    Unauthorized,
    /// The action is unknown or lacks a parameter; the message says so.
    BadRequest(String),
}

/// Which answer the action endpoint gives.
#[derive(PartialEq, Eq, Structural)]
pub enum ActionKind {
    Update,
    Push,
    Import,
    UpdateItems,
    Unauthorized,
    Unknown,
}

/// The answer that the parameters of the action endpoint ask for: `update` with a
/// list, winner and loser; `push` with a list, for a signed-in user; `import` with a
/// source and an id, for a signed-in user; `updateItems`. Anything else is refused as
/// an unknown action.
pub open spec fn action_kind(params: Seq<(String, String)>, logged_in: bool) -> ActionKind {
    let action = param(params, "action"@);
    if action == Some("update"@) && param(params, "list"@) is Some && param(params, "win"@) is Some && param(params, "lose"@) is Some {
        ActionKind::Update
    } else if action == Some("push"@) && param(params, "list"@) is Some {
        if logged_in { ActionKind::Push } else { ActionKind::Unauthorized }
    } else if action == Some("import"@) && param(params, "source"@) is Some && param(params, "id"@) is Some {
        if logged_in { ActionKind::Import } else { ActionKind::Unauthorized }
    } else if action == Some("updateItems"@) {
        ActionKind::UpdateItems
    } else {
        ActionKind::Unknown
    }
}

/// Whether `r` is the answer that `action_kind` names, the parameters it needs
/// carrying their values.
pub open spec fn is_action(params: Seq<(String, String)>, logged_in: bool, r: Result<ActionRequest, ActionError>) -> bool {
    match action_kind(params, logged_in) {
        ActionKind::Update => r matches Ok(ActionRequest::Update { list, win, lose }) && param(params, "list"@)
            == Some(list@) && param(params, "win"@) == Some(win@) && param(params, "lose"@) == Some(lose@),
        ActionKind::Push => r matches Ok(ActionRequest::Push { list }) && param(params, "list"@) == Some(list@),
        ActionKind::Import => r matches Ok(ActionRequest::Import { source, id }) && param(params, "source"@)
            == Some(source@) && param(params, "id"@) == Some(id@),
        ActionKind::UpdateItems => r == Ok::<ActionRequest, ActionError>(ActionRequest::UpdateItems),
        ActionKind::Unauthorized => r == Err::<ActionRequest, ActionError>(ActionError::Unauthorized),
        ActionKind::Unknown => r matches Err(ActionError::BadRequest(m)) && m@ == "action does not exist"@,
    }
}

/// Whether an optional parameter value is the text `a`.
fn value_is(v: Option<&String>, a: &str) -> (r: bool)
    ensures
        r == (v matches Some(x) && x@ == a@),
{
    match v {
        Some(x) => str_eq(x.as_str(), a),
        None => false,
    }
}

/// Routes a request of the action endpoint (see `action_kind`).
pub fn route_action(params: &Vec<(String, String)>, logged_in: bool) -> (r: Result<ActionRequest, ActionError>)
    ensures
        is_action(params@, logged_in, r),
{
    let action = get_param(params, "action");
    if value_is(action, "update") {
        match (get_param(params, "list"), get_param(params, "win"), get_param(params, "lose")) {
            (Some(list), Some(win), Some(lose)) => {
                return Ok(ActionRequest::Update { list: list.clone(), win: win.clone(), lose: lose.clone() });
            },
            _ => {},
        }
    } else if value_is(action, "push") {
        match get_param(params, "list") {
            Some(list) => {
                if !logged_in {
                    return Err(ActionError::Unauthorized);
                }
                return Ok(ActionRequest::Push { list: list.clone() });
            },
            None => {},
        }
    } else if value_is(action, "import") {
        match (get_param(params, "source"), get_param(params, "id")) {
            (Some(source), Some(id)) => {
                if !logged_in {
                    return Err(ActionError::Unauthorized);
                }
                return Ok(ActionRequest::Import { source: source.clone(), id: id.clone() });
            },
            _ => {},
        }
    } else if value_is(action, "updateItems") {
        return Ok(ActionRequest::UpdateItems);
    }
    proof {
        reveal_strlit("update");
        reveal_strlit("push");
        reveal_strlit("import");
        reveal_strlit("updateItems");
        assert("update"@ != "push"@ && "update"@ != "import"@ && "update"@ != "updateItems"@) by {
            assert("update"@.len() != "push"@.len());
            assert("update"@[0] != "import"@[0]);
            assert("update"@.len() != "updateItems"@.len());
        }
        assert("push"@ != "import"@ && "push"@ != "updateItems"@ && "import"@ != "updateItems"@) by {
            assert("push"@.len() != "import"@.len());
            assert("push"@.len() != "updateItems"@.len());
            assert("import"@.len() != "updateItems"@.len());
        }
    }
    Err(ActionError::BadRequest(String::from_str("action does not exist")))
}

/// Whether the last list entry with the id `win` is at `w` and the last with the id
/// `lose` (and not `win`) is at `l`, as a scan that checks for the winner first finds
/// them.
pub open spec fn match_entries(items: Seq<ItemMetadata>, win: Seq<char>, lose: Seq<char>, w: int, l: int) -> bool {
    &&& 0 <= w < items.len() && items[w].id@ == win
    &&& forall|j: int| w < j < items.len() ==> #[trigger] items[j].id@ != win
    &&& 0 <= l < items.len() && items[l].id@ == lose && lose != win
    &&& forall|j: int| l < j < items.len() ==> #[trigger] items[j].id@ != lose
}

/// Whether a match can be recorded on these scores: the gap fits in 32 bits, the new
/// scores too, and the counts can grow by one.
pub open spec fn stats_fit(win_score: i32, win_wins: i32, lose_score: i32, lose_losses: i32) -> bool {
    &&& i32::MIN <= win_score - lose_score <= i32::MAX
    &&& win_score + elo_gain(win_score - lose_score) <= i32::MAX
    &&& lose_score - elo_gain(win_score - lose_score) >= i32::MIN
    &&& win_wins < i32::MAX
    &&& lose_losses < i32::MAX
}

/// Records a match in the list and in the two items: the winner's entry and item
/// gain what the loser's lose (see `update_stats`) and count a win, the loser's
/// count a loss. The entries are the last ones with the winner's and the loser's ids.
pub fn record_match(list: &mut List, win: &str, lose: &str, win_item: &mut Item, lose_item: &mut Item)
    requires
        exists|w: int, l: int| match_entries(old(list).items@, win@, lose@, w, l) && stats_fit(
            old(list).items@[w].score,
            old(list).items@[w].wins,
            old(list).items@[l].score,
            old(list).items@[l].losses,
        ),
        stats_fit(old(win_item).user_score, old(win_item).user_wins, old(lose_item).user_score, old(lose_item).user_losses),
    ensures
        exists|w: int, l: int| #![trigger match_entries(old(list).items@, win@, lose@, w, l)]
            match_entries(old(list).items@, win@, lose@, w, l) && {
            let ow = old(list).items@[w];
            let ol = old(list).items@[l];
            let g = elo_gain(ow.score - ol.score);
            &&& final(list).items@ == old(list).items@.update(w, ItemMetadata { score: (ow.score + g) as i32, wins: (ow.wins + 1) as i32, ..ow })
                .update(l, ItemMetadata { score: (ol.score - g) as i32, losses: (ol.losses + 1) as i32, ..ol })
        },
        final(list).id == old(list).id,
        final(list).name == old(list).name,
        final(list).mode == old(list).mode,
        ({
            let g = elo_gain(old(win_item).user_score - old(lose_item).user_score);
            &&& final(win_item).user_score == old(win_item).user_score + g
            &&& final(lose_item).user_score == old(lose_item).user_score - g
            &&& final(win_item).user_wins == old(win_item).user_wins + 1
            &&& final(lose_item).user_losses == old(lose_item).user_losses + 1
            &&& final(win_item).id == old(win_item).id && final(lose_item).id == old(lose_item).id
        }),
{
    let n = list.items.len();
    let mut w: Option<usize> = None;
    let mut l: Option<usize> = None;
    let mut i: usize = 0;
    while i < n
        invariant
            n == list.items@.len(),
            i <= n,
            match w {
                Some(x) => x < i && list.items@[x as int].id@ == win@ && forall|j: int| x < j < i ==> #[trigger] list.items@[j].id@ != win@,
                None => forall|j: int| 0 <= j < i ==> #[trigger] list.items@[j].id@ != win@,
            },
            match l {
                Some(x) => x < i && list.items@[x as int].id@ == lose@ && list.items@[x as int].id@ != win@
                    && forall|j: int| x < j < i ==> (#[trigger] list.items@[j].id@ != lose@ || list.items@[j].id@ == win@),
                None => forall|j: int| 0 <= j < i ==> (#[trigger] list.items@[j].id@ != lose@ || list.items@[j].id@ == win@),
            },
        decreases n - i,
    {
        if str_eq(list.items[i].id.as_str(), win) {
            w = Some(i);
        } else if str_eq(list.items[i].id.as_str(), lose) {
            l = Some(i);
        }
        i = i + 1;
    }
    proof {
        let (w0, l0) = choose|w0: int, l0: int| match_entries(list.items@, win@, lose@, w0, l0) && stats_fit(
            list.items@[w0].score,
            list.items@[w0].wins,
            list.items@[l0].score,
            list.items@[l0].losses,
        );
        assert(list.items@[w0].id@ == win@);
        assert(list.items@[l0].id@ == lose@);
    }
    let wi = w.unwrap();
    let li = l.unwrap();
    proof {
        let (w0, l0) = choose|w0: int, l0: int| match_entries(list.items@, win@, lose@, w0, l0) && stats_fit(
            list.items@[w0].score,
            list.items@[w0].wins,
            list.items@[l0].score,
            list.items@[l0].losses,
        );
        if w0 < wi { assert(list.items@[wi as int].id@ != win@); }
        if wi < w0 { assert(list.items@[w0].id@ != win@); }
        if l0 < li { assert(list.items@[li as int].id@ != lose@); }
        if li < l0 { assert(list.items@[l0].id@ != lose@ || list.items@[l0].id@ == win@); }
        assert(match_entries(list.items@, win@, lose@, wi as int, li as int));
    }
    let mut win_score = list.items[wi].score;
    let mut win_wins = list.items[wi].wins;
    let mut lose_score = list.items[li].score;
    let mut lose_losses = list.items[li].losses;
    update_stats(&mut win_score, &mut win_wins, &mut lose_score, &mut lose_losses);
    list.items[wi].score = win_score;
    list.items[wi].wins = win_wins;
    list.items[li].score = lose_score;
    list.items[li].losses = lose_losses;
    update_stats(&mut win_item.user_score, &mut win_item.user_wins, &mut lose_item.user_score, &mut lose_item.user_losses);
}

/// The mode of a pushed list once its new outside playlist exists: a user's list or
/// a view keeps its kind and points at the playlist.
pub fn with_playlist(mode: ListMode, playlist: Id) -> (r: ListMode)
    requires
        !(mode is External),
    ensures
        match mode {
            ListMode::User(_) => r == ListMode::User(Some(playlist)),
            _ => r == ListMode::View(Some(playlist)),
        },
{
    match mode {
        ListMode::User(_) => ListMode::User(Some(playlist)),
        _ => ListMode::View(Some(playlist)),
    }
}

/// The kind and the id of a source to import, written `<kind>:<id>`.
pub fn split_source(source: &str) -> (r: Option<(&str, &str)>)
    ensures
        match r {
            Some((kind, rest)) => source@.contains(':') && kind@ == before_first(source@, ':') && source@ == kind@ + seq![':'] + rest@,
            None => !source@.contains(':'),
        },
{
    crate::text::split_once(source, ':')
}

} // verus!
