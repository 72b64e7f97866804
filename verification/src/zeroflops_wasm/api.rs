use crate::zeroflops_web::query::{join_texts, joined};
use vstd::prelude::*;

verus! {

/// The address of the lists, all of them or the favorites only.
pub fn lists_url(favorite: bool) -> (r: String)
    ensures
        r@ == "/api/lists?favorite="@ + if favorite { "true"@ } else { "false"@ },
{
    String::from_str("/api/lists?favorite=").concat(if favorite { "true" } else { "false" })
}

/// The address of one list, to read, replace or delete it.
pub fn list_url(id: &str) -> (r: String)
    ensures
        r@ == "/api/lists/"@ + id@,
{
    String::from_str("/api/lists/").concat(id)
}

/// The address that creates a list, with the query it starts with where one is given.
pub fn create_list_url(query: Option<&str>) -> (r: String)
    ensures
        r@ == match query {
            Some(q) => "/api/lists?query="@ + q@,
            None => "/api/lists"@,
        },
{
    match query {
        Some(q) => String::from_str("/api/lists?query=").concat(q),
        None => String::from_str("/api/lists"),
    }
}

/// The address that runs a list's query, or the given query over the list.
pub fn query_list_url(id: &str, query: Option<&str>) -> (r: String)
    ensures
        r@ == match query {
            Some(q) => "/api/lists/"@ + id@ + "/query?query="@ + q@,
            None => "/api/lists/"@ + id@ + "/query"@,
        },
{
    match query {
        Some(q) => String::from_str("/api/lists/").concat(id).concat("/query?query=").concat(q),
        None => String::from_str("/api/lists/").concat(id).concat("/query"),
    }
}

/// The address of a list's items.
pub fn items_url(id: &str) -> (r: String)
    ensures
        r@ == "/api/lists/"@ + id@ + "/items"@,
{
    String::from_str("/api/lists/").concat(id).concat("/items")
}

/// The address that records that `win` beat `lose` in the list.
pub fn update_stats_url(list: &str, win: &str, lose: &str) -> (r: String)
    ensures
        r@ == "/api/?action=update&list="@ + list@ + "&win="@ + win@ + "&lose="@ + lose@,
{
    String::from_str("/api/?action=update&list=").concat(list).concat("&win=").concat(win).concat("&lose=").concat(
        lose,
    )
}

/// The address that pushes a list to its outside playlist.
pub fn push_url(id: &str) -> (r: String)
    ensures
        r@ == "/api/?action=push&list="@ + id@,
{
    String::from_str("/api/?action=push&list=").concat(id)
}

/// The address that imports an outside source.
pub fn import_url(source: &str, id: &str) -> (r: String)
    ensures
        r@ == "/api/?action=import&source="@ + source@ + "&id="@ + id@,
{
    String::from_str("/api/?action=import&source=").concat(source).concat("&id=").concat(id)
}

/// The address that runs a query over the user's items.
pub fn find_items_url(search: &str) -> (r: String)
    ensures
        r@ == "/api/items?q=search&query="@ + search@,
{
    String::from_str("/api/items?q=search&query=").concat(search)
}

/// The address that deletes the items with the given ids.
pub fn delete_items_url(ids: &Vec<String>) -> (r: String)
    ensures
        r@ == "/api/items?ids="@ + joined(ids@.map_values(|s: String| s@), ","@),
{
    let text = join_texts(ids, ",");
    String::from_str("/api/items?ids=").concat(text.as_str())
}

} // verus!
