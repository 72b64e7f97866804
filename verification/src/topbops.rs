use vstd::prelude::*;

verus! {

/// All lists of a user.
pub struct Lists {
    pub lists: Vec<List>,
}

/// A ranked list of items.
pub struct List {
    pub id: String,
    pub user_id: String,
    pub name: String,
    pub items: Vec<ItemMetadata>,
    pub mode: ListMode,
    /// For external lists the query only selects fields; it does not filter.
    pub query: String,
}

/// What a list knows about one of its items.
pub struct ItemMetadata {
    pub id: String,
    pub name: String,
    pub iframe: Option<String>,
    pub rating: Option<i32>,
    pub score: i32,
    pub wins: i32,
    pub losses: i32,
    pub rank: Option<i32>,
}

impl ItemMetadata {
    /// A fresh item: rated 1500, no games played, no rating and no rank yet.
    pub fn new(id: String, name: String, iframe: Option<String>) -> (r: ItemMetadata)
        ensures
            r.id == id,
            r.name == name,
            r.iframe == iframe,
            r.rating is None,
            r.score == 1500,
            r.wins == 0,
            r.losses == 0,
            r.rank is None,
    {
        ItemMetadata { id, name, iframe, rating: None, score: 1500, wins: 0, losses: 0, rank: None }
    }
}

/// Where the items of a list come from.
#[derive(PartialEq, Eq, Structural)]
pub enum ListMode {
    User,
    External,
}

/// The rows that a list query produced, with the column names.
pub struct ItemQuery {
    pub fields: Vec<String>,
    pub items: Vec<Item>,
}

/// One row of a list query.
pub struct Item {
    pub values: Vec<String>,
    pub metadata: Option<ItemMetadata>,
}

} // verus!
