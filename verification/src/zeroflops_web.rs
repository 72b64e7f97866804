pub mod cosmos;
pub mod handlers;
pub mod login;
pub mod push;
pub mod query;
pub mod source;
pub mod user;

use crate::zeroflops::{Error, InternalError, ItemMetadata};
use vstd::prelude::*;

verus! {

/// The id of the user whose data a request may touch.
#[derive(Clone, Debug, PartialEq, Eq)]
pub struct UserId(pub String);

/// The tokens that Spotify hands out.
#[derive(Clone, Debug, PartialEq, Eq)]
pub struct Token {
    pub access_token: String,
    pub refresh_token: Option<String>,
}

/// An item of a user: a track or a custom entry (its `item_type`), with its scores and
/// the fields that its source gave it.
#[derive(Debug, PartialEq)]
pub struct Item {
    pub id: String,
    pub user_id: String,
    pub item_type: String,
    pub name: String,
    pub iframe: Option<String>,
    pub rating: Option<i32>,
    pub user_score: i32,
    pub user_wins: i32,
    pub user_losses: i32,
    pub metadata: serde_json::Map<String, serde_json::Value>,
    pub hidden: bool,
}

/// An item as the database stores it: its metadata as JSON text.
#[derive(Clone, Debug, PartialEq, Eq)]
pub struct RawItem {
    pub id: String,
    pub user_id: String,
    pub item_type: String,
    pub name: String,
    pub iframe: Option<String>,
    pub rating: Option<i32>,
    pub user_score: i32,
    pub user_wins: i32,
    pub user_losses: i32,
    pub metadata: String,
    pub hidden: bool,
}

/// The list entries of the items: each a fresh entry with the item's id, name and
/// player.
pub fn convert_items(items: &[Item]) -> (r: Vec<ItemMetadata>)
    ensures
        r@.len() == items@.len(),
        forall|i: int| 0 <= i < items@.len() ==> {
            &&& #[trigger] r@[i].id == items@[i].id
            &&& r@[i].name == items@[i].name
            &&& r@[i].iframe == items@[i].iframe
            &&& r@[i].score == 1500
            &&& r@[i].wins == 0
            &&& r@[i].losses == 0
            &&& r@[i].rank is None
        },
{
    let mut out: Vec<ItemMetadata> = Vec::new();
    let mut i: usize = 0;
    while i < items.len()
        invariant
            i <= items@.len(),
            out@.len() == i,
            forall|j: int| 0 <= j < i ==> {
                &&& #[trigger] out@[j].id == items@[j].id
                &&& out@[j].name == items@[j].name
                &&& out@[j].iframe == items@[j].iframe
                &&& out@[j].score == 1500
                &&& out@[j].wins == 0
                &&& out@[j].losses == 0
                &&& out@[j].rank is None
            },
        decreases items.len() - i,
    {
        let iframe = match &items[i].iframe {
            Some(f) => Some(f.clone()),
            None => None,
        };
        out.push(ItemMetadata::new(items[i].id.clone(), items[i].name.clone(), iframe));
        i = i + 1;
    }
    out
}

/// The JSON object that serde_json reads from `text`, if it reads one.
pub uninterp spec fn json_object_read(text: Seq<char>) -> Option<serde_json::Map<String, serde_json::Value>>;

/// Whether serde_json reads `text` as a JSON object.
pub open spec fn json_object_parses(text: Seq<char>) -> bool {
    json_object_read(text) is Some
}

/// The text that serde_json writes for a JSON object.
pub uninterp spec fn json_map_text(m: serde_json::Map<String, serde_json::Value>) -> Seq<char>;

/// `serde_json::to_string` of an item's metadata. A map with text keys always
/// serialises, so the `expect` never fires. Trusted to give the text that
/// `json_map_text` names, a function of the map alone. That the text reads back as the
/// same map is not stated: serde_json writes a map however deeply it nests, but refuses
/// to read text nested 128 levels or deeper.
#[verifier::external_body]
fn metadata_text(metadata: &serde_json::Map<String, serde_json::Value>) -> (r: String)
    ensures
        r@ == json_map_text(*metadata),
{
    serde_json::to_string(metadata).expect("metadata should serialize")
}

/// `serde_json::from_str::<Map<String, Value>>(text)`, its error as its text.
/// Trusted to give the object that `json_object_read` names, and to fail exactly where
/// that names none; the error's wording is not stated.
#[verifier::external_body]
fn parse_metadata(text: &str) -> (r: Result<serde_json::Map<String, serde_json::Value>, String>)
    ensures
        match r {
            Ok(m) => json_object_read(text@) == Some(m),
            Err(_) => json_object_read(text@) is None,
        },
{
    match serde_json::from_str(text) {
        Ok(m) => Ok(m),
        Err(e) => Err(e.to_string()),
    }
}

impl RawItem {
    /// The stored form of an item: the same fields, its metadata as the JSON text that
    /// serde_json writes for it (see `json_map_text`).
    pub fn from_item(i: Item) -> (r: RawItem)
        ensures
            r.id == i.id,
            r.user_id == i.user_id,
            r.item_type == i.item_type,
            r.name == i.name,
            r.iframe == i.iframe,
            r.rating == i.rating,
            r.user_score == i.user_score,
            r.user_wins == i.user_wins,
            r.user_losses == i.user_losses,
            r.hidden == i.hidden,
            r.metadata@ == json_map_text(i.metadata),
    {
        let metadata = metadata_text(&i.metadata);
        RawItem {
            id: i.id,
            user_id: i.user_id,
            item_type: i.item_type,
            name: i.name,
            iframe: i.iframe,
            rating: i.rating,
            user_score: i.user_score,
            user_wins: i.user_wins,
            user_losses: i.user_losses,
            metadata,
            hidden: i.hidden,
        }
    }
}

impl Item {
    /// An item read back from its stored form: the same fields, its metadata the JSON
    /// object that serde_json reads from the text (see `json_object_read`); a JSON
    /// error of the server where the text is no object.
    pub fn try_from_raw(i: RawItem) -> (r: Result<Item, Error>)
        ensures
            r is Ok == json_object_parses(i.metadata@),
            match r {
                Ok(item) => {
                    &&& item.id == i.id
                    &&& item.user_id == i.user_id
                    &&& item.item_type == i.item_type
                    &&& item.name == i.name
                    &&& item.iframe == i.iframe
                    &&& item.rating == i.rating
                    &&& item.user_score == i.user_score
                    &&& item.user_wins == i.user_wins
                    &&& item.user_losses == i.user_losses
                    &&& item.hidden == i.hidden
                    &&& json_object_read(i.metadata@) == Some(item.metadata)
                },
                Err(e) => e matches Error::InternalError(InternalError::JSONError(_)),
            },
    {
        let metadata = match parse_metadata(i.metadata.as_str()) {
            Ok(m) => m,
            Err(e) => return Err(Error::InternalError(InternalError::JSONError(e))),
        };
        Ok(Item {
            id: i.id,
            user_id: i.user_id,
            item_type: i.item_type,
            name: i.name,
            iframe: i.iframe,
            rating: i.rating,
            user_score: i.user_score,
            user_wins: i.user_wins,
            user_losses: i.user_losses,
            metadata,
            hidden: i.hidden,
        })
    }
}

} // verus!
