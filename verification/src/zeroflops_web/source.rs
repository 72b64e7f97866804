pub mod setlist;
pub mod spotify;

use crate::zeroflops::Error;
use crate::zeroflops::json::{
    JsonEntries, JsonItem, array_items, empty_object, json_array_items, json_object_entries, take_text, text_at,
};
use crate::zeroflops_web::{Item, UserId};
use vstd::prelude::*;

verus! {

/// One entry of a custom source as its JSON gave it: a text, an object with its `id`
/// and `name` where they are texts and its other fields, or anything else.
#[derive(Debug, PartialEq)]
pub enum CustomValue {
    Text(String),
    Object(Option<String>, Option<String>, serde_json::Map<String, serde_json::Value>),
    Other,
}

/// Whether `v` is what the entry `item` of a custom source reads as: a text as it is;
/// an object with its `id` and `name` where they are texts, and its other fields; any
/// other entry as `Other`.
pub open spec fn is_custom_value_of(item: JsonItem, v: CustomValue) -> bool {
    match item {
        JsonItem::Text(s) => v == CustomValue::Text(s),
        JsonItem::Object(o) => v matches CustomValue::Object(id, name, rest) && {
            let e = json_object_entries(o);
            &&& (match id { Some(t) => text_at(e, "id"@) == Some(t@), None => text_at(e, "id"@) is None })
            &&& (match name {
                Some(t) => text_at(e.remove("id"@), "name"@) == Some(t@),
                None => text_at(e.remove("id"@), "name"@) is None,
            })
            &&& json_object_entries(rest) == e.remove("id"@).remove("name"@)
        },
        JsonItem::Other => v == CustomValue::Other,
    }
}

/// What an entry of a custom source reads as (see `is_custom_value_of`).
pub fn custom_value(item: JsonItem) -> (r: CustomValue)
    ensures
        is_custom_value_of(item, r),
{
    match item {
        JsonItem::Text(s) => CustomValue::Text(s),
        JsonItem::Object(o) => {
            let mut rest = o;
            let id = take_text(&mut rest, "id");
            let name = take_text(&mut rest, "name");
            CustomValue::Object(id, name, rest)
        },
        JsonItem::Other => CustomValue::Other,
    }
}

/// The entries of a custom source's JSON: one per entry of its array, in order (see
/// `is_custom_value_of`); none where it is no array.
pub fn custom_values(value: &serde_json::Value) -> (r: Option<Vec<CustomValue>>)
    ensures
        match json_array_items(*value) {
            None => r is None,
            Some(items) => r matches Some(vs) && vs@.len() == items.len() && forall|i: int|
                0 <= i < items.len() ==> #[trigger] is_custom_value_of(items[i], vs@[i]),
        },
{
    let items = match array_items(value) {
        Some(items) => items,
        None => return None,
    };
    let ghost all = items@;
    let mut rest = items;
    let n = rest.len();
    let mut out: Vec<CustomValue> = Vec::new();
    let mut i: usize = 0;
    while i < n
        invariant
            n == all.len(),
            i <= n,
            json_array_items(*value) == Some(all),
            rest@ == all.subrange(i as int, n as int),
            out@.len() == i,
            forall|j: int| 0 <= j < i ==> #[trigger] is_custom_value_of(all[j], out@[j]),
        decreases n - i,
    {
        let item = rest.remove(0);
        assert(item == all[i as int]);
        out.push(custom_value(item));
        i = i + 1;
        assert(rest@ =~= all.subrange(i as int, n as int));
    }
    Some(out)
}

/// Whether `item` is the fresh custom item with the given id, user and name: its id
/// marked `custom:`, scored 1500, unplayed, unrated, not hidden and without player.
pub open spec fn is_custom_item(item: Item, id: Seq<char>, user_id: Seq<char>, name: String) -> bool {
    &&& item.id@ == "custom:"@ + id
    &&& item.user_id@ == user_id
    &&& item.item_type@ == "custom"@
    &&& item.name == name
    &&& item.iframe is None
    &&& item.rating is None
    &&& item.user_score == 1500
    &&& item.user_wins == 0
    &&& item.user_losses == 0
    &&& !item.hidden
}

/// A fresh custom item (see `is_custom_item`) with the given metadata.
pub fn new_custom_item(
    id: &str,
    user_id: &UserId,
    name: String,
    metadata: serde_json::Map<String, serde_json::Value>,
) -> (r: Item)
    ensures
        is_custom_item(r, id@, user_id.0@, name),
        r.metadata == metadata,
{
    Item {
        id: String::from_str("custom:").concat(id),
        user_id: user_id.0.clone(),
        item_type: String::from_str("custom"),
        name,
        iframe: None,
        rating: None,
        user_score: 1500,
        user_wins: 0,
        user_losses: 0,
        metadata,
        hidden: false,
    }
}

/// The error that an entry of a custom source gets, if any: an object needs a text
/// `id` and then a text `name`; only texts and objects are entries.
pub open spec fn custom_value_error(v: CustomValue) -> Option<Seq<char>> {
    match v {
        CustomValue::Text(_) => None,
        CustomValue::Object(None, _, _) => Some("invalid id"@),
        CustomValue::Object(Some(_), None, _) => Some("invalid name"@),
        CustomValue::Object(Some(_), Some(_), _) => None,
        CustomValue::Other => Some("invalid custom type"@),
    }
}

/// Whether entry `k` is the first that has an error.
pub open spec fn is_first_bad(entries: Seq<CustomValue>, k: int) -> bool {
    &&& 0 <= k < entries.len()
    &&& forall|i: int| 0 <= i < k ==> custom_value_error(#[trigger] entries[i]) is None
    &&& custom_value_error(entries[k]) is Some
}

/// Whether `item` is the custom item that the entry `v` gives: a text is both id and
/// name, with no metadata; an object gives its id, its name and its other fields.
pub open spec fn is_item_of(v: CustomValue, user_id: Seq<char>, item: Item) -> bool {
    match v {
        CustomValue::Text(s) => is_custom_item(item, s@, user_id, s) && json_object_entries(item.metadata) == JsonEntries::empty(),
        CustomValue::Object(Some(id), Some(name), rest) => is_custom_item(item, id@, user_id, name) && item.metadata == rest,
        _ => false,
    }
}

/// The items of a custom source: one per entry of its array, in order; the client
/// error of the first bad entry, or `invalid custom type` where it is no array.
pub fn get_custom_items(user_id: &UserId, value: Option<Vec<CustomValue>>) -> (r: Result<Vec<Item>, Error>)
    ensures
        match value {
            None => r matches Err(e) && e.client_message() == Some("invalid custom type"@),
            Some(entries) => match r {
                Ok(items) => items@.len() == entries@.len() && forall|i: int| 0 <= i < entries@.len() ==> {
                    &&& custom_value_error(#[trigger] entries@[i]) is None
                    &&& is_item_of(entries@[i], user_id.0@, items@[i])
                },
                Err(e) => exists|k: int| #[trigger] is_first_bad(entries@, k) && e.client_message() == custom_value_error(entries@[k]),
            },
        },
{
    let ghost given = value;
    let entries = match value {
        Some(a) => a,
        None => return Err(Error::client_error("invalid custom type")),
    };
    let ghost all = entries@;
    let mut rest = entries;
    let n = rest.len();
    let mut items: Vec<Item> = Vec::new();
    let mut i: usize = 0;
    while i < n
        invariant
            n == all.len(),
            i <= n,
            given == value,
            given matches Some(es) && es@ == all,
            rest@ == all.subrange(i as int, n as int),
            items@.len() == i,
            forall|j: int| 0 <= j < i ==> {
                &&& custom_value_error(#[trigger] all[j]) is None
                &&& is_item_of(all[j], user_id.0@, items@[j])
            },
        decreases n - i,
    {
        let v = rest.remove(0);
        assert(v == all[i as int]);
        assert(custom_value_error(all[i as int]) is Some ==> is_first_bad(all, i as int));
        let item = match v {
            CustomValue::Text(s) => new_custom_item(s.as_str(), user_id, s.clone(), empty_object()),
            CustomValue::Object(Some(id), Some(name), rest_fields) => new_custom_item(id.as_str(), user_id, name, rest_fields),
            CustomValue::Object(None, _, _) => return Err(Error::client_error("invalid id")),
            CustomValue::Object(Some(_), None, _) => return Err(Error::client_error("invalid name")),
            CustomValue::Other => return Err(Error::client_error("invalid custom type")),
        };
        items.push(item);
        i = i + 1;
        assert(rest@ =~= all.subrange(i as int, n as int));
    }
    Ok(items)
}

} // verus!
