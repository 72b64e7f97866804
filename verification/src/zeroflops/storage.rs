use crate::text::{contains_str, contains_text, str_eq};
use crate::zeroflops::{Error, UserId};
use vstd::prelude::*;
use vstd::view::View as _;

verus! {

/// A query for documents, with its named parameters.
#[derive(Debug, PartialEq)]
pub struct CosmosQuery {
    pub query: sqlparser::ast::Query,
    pub parameters: Vec<CosmosParam>,
}

impl CosmosQuery {
    /// A query without parameters.
    pub fn new(query: sqlparser::ast::Query) -> (r: CosmosQuery)
        ensures
            r.query == query,
            r.parameters@.len() == 0,
    {
        CosmosQuery { query, parameters: Vec::new() }
    }

    /// A query with the given parameters.
    pub fn with_params(query: sqlparser::ast::Query, parameters: Vec<CosmosParam>) -> (r: CosmosQuery)
        ensures
            r.query == query,
            r.parameters == parameters,
    {
        CosmosQuery { query, parameters }
    }
}

/// A named parameter of a query and its JSON value.
#[derive(Debug, PartialEq)]
pub struct CosmosParam {
    pub name: String,
    pub value: serde_json::Value,
}

impl CosmosParam {
    /// The parameter `name` with the given value.
    pub fn new(name: String, value: serde_json::Value) -> (r: CosmosParam)
        ensures
            r.name == name,
            r.value == value,
    {
        CosmosParam { name, value }
    }
}

/// A request for the document `document_name` of a collection, as one partition
/// sees it.
#[derive(Debug, PartialEq)]
pub struct GetDocumentBuilder {
    pub collection_name: &'static str,
    pub document_name: String,
    pub partition_key: View,
}

impl GetDocumentBuilder {
    /// The request for `document_name` in `collection_name`, seen through `partition_key`.
    pub fn new(collection_name: &'static str, document_name: String, partition_key: View) -> (r:
        GetDocumentBuilder)
        ensures
            r.collection_name == collection_name,
            r.document_name == document_name,
            r.partition_key == partition_key,
    {
        GetDocumentBuilder { collection_name, document_name, partition_key }
    }
}

/// A query over the documents of a collection, as one partition sees them.
#[derive(Debug, PartialEq)]
pub struct QueryDocumentsBuilder {
    pub collection_name: &'static str,
    pub partition_key: View,
    pub query: CosmosQuery,
    pub query_cross_partition: bool,
    pub parallelize_cross_partition_query: bool,
}

impl QueryDocumentsBuilder {
    /// A query that stays within its partition.
    pub fn new(collection_name: &'static str, partition_key: View, query: CosmosQuery) -> (r:
        QueryDocumentsBuilder)
        ensures
            r.collection_name == collection_name,
            r.partition_key == partition_key,
            r.query == query,
            !r.query_cross_partition,
            !r.parallelize_cross_partition_query,
    {
        QueryDocumentsBuilder {
            collection_name,
            partition_key,
            query,
            query_cross_partition: false,
            parallelize_cross_partition_query: false,
        }
    }
}

/// The part of the database that a request may see: one user's documents, some of
/// them, the public ones, or some of those.
#[derive(Debug, PartialEq)]
pub enum View {
    User(UserId),
    List(UserId, Vec<String>),
    Public,
    PublicList(Vec<String>),
}

/// A client of the SQLite database at `path`.
pub struct SqlSessionClient {
    pub path: &'static str,
}

/// A write of a document: a new one, a replacement, or a deletion.
#[derive(Debug, PartialEq)]
pub enum DocumentWriter<T> {
    Create(CreateDocumentBuilder<T>),
    Replace(ReplaceDocumentBuilder<T>),
    Delete(DeleteDocumentBuilder),
}

/// A new document; with `is_upsert` it replaces the scores of one with the same id.
#[derive(Debug, PartialEq)]
pub struct CreateDocumentBuilder<T> {
    pub collection_name: &'static str,
    pub document: T,
    pub is_upsert: bool,
}

/// A new version of the document `document_name`.
#[derive(Debug, PartialEq)]
pub struct ReplaceDocumentBuilder<T> {
    pub collection_name: &'static str,
    pub document_name: String,
    pub partition_key: UserId,
    pub document: T,
}

/// The deletion of the document `document_name`.
#[derive(Debug, PartialEq)]
pub struct DeleteDocumentBuilder {
    pub collection_name: &'static str,
    pub document_name: String,
    pub partition_key: UserId,
}

/// The collections that the database holds.
pub open spec fn is_collection(name: Seq<char>) -> bool {
    name == "item"@ || name == "list"@
}

/// The statement that inserts a document into a collection; an upsert of an item
/// keeps its id and replaces its rating and scores, an upsert of a list its items,
/// query and visibility.
pub open spec fn insert_stmt(collection_name: Seq<char>, is_upsert: bool) -> Seq<char> {
    if collection_name == "item"@ {
        if is_upsert {
            "INSERT INTO _item (id, user_id, type, name, iframe, rating, user_score, user_wins, user_losses, metadata, hidden) VALUES (:id, :user_id, :type, :name, :iframe, :rating, :user_score, :user_wins, :user_losses, :metadata, :hidden) ON CONFLICT(id, user_id) DO UPDATE SET rating=excluded.rating, user_score=excluded.user_score, user_wins=excluded.user_wins, user_losses=excluded.user_losses"@
        } else {
            "INSERT INTO _item (id, user_id, type, name, iframe, rating, user_score, user_wins, user_losses, metadata, hidden) VALUES (:id, :user_id, :type, :name, :iframe, :rating, :user_score, :user_wins, :user_losses, :metadata, :hidden)"@
        }
    } else {
        if is_upsert {
            "INSERT INTO _list (id, user_id, mode, name, sources, iframe, items, favorite, query, public) VALUES (:id, :user_id, :mode, :name, :sources, :iframe, :items, :favorite, :query, :public) ON CONFLICT(id, user_id) DO UPDATE SET items=excluded.items, query=excluded.query, public=excluded.public"@
        } else {
            "INSERT INTO _list (id, user_id, mode, name, sources, iframe, items, favorite, query, public) VALUES (:id, :user_id, :mode, :name, :sources, :iframe, :items, :favorite, :query, :public)"@
        }
    }
}

/// The statement that inserts a document into `collection_name` (see `insert_stmt`).
pub fn get_insert_stmt(collection_name: &str, is_upsert: bool) -> (r: &'static str)
    requires
        is_collection(collection_name@),
    ensures
        r@ == insert_stmt(collection_name@, is_upsert),
{
    if str_eq(collection_name, "item") {
        if is_upsert {
            "INSERT INTO _item (id, user_id, type, name, iframe, rating, user_score, user_wins, user_losses, metadata, hidden) VALUES (:id, :user_id, :type, :name, :iframe, :rating, :user_score, :user_wins, :user_losses, :metadata, :hidden) ON CONFLICT(id, user_id) DO UPDATE SET rating=excluded.rating, user_score=excluded.user_score, user_wins=excluded.user_wins, user_losses=excluded.user_losses"
        } else {
            "INSERT INTO _item (id, user_id, type, name, iframe, rating, user_score, user_wins, user_losses, metadata, hidden) VALUES (:id, :user_id, :type, :name, :iframe, :rating, :user_score, :user_wins, :user_losses, :metadata, :hidden)"
        }
    } else {
        if is_upsert {
            "INSERT INTO _list (id, user_id, mode, name, sources, iframe, items, favorite, query, public) VALUES (:id, :user_id, :mode, :name, :sources, :iframe, :items, :favorite, :query, :public) ON CONFLICT(id, user_id) DO UPDATE SET items=excluded.items, query=excluded.query, public=excluded.public"
        } else {
            "INSERT INTO _list (id, user_id, mode, name, sources, iframe, items, favorite, query, public) VALUES (:id, :user_id, :mode, :name, :sources, :iframe, :items, :favorite, :query, :public)"
        }
    }
}

/// The statement that replaces a document of a collection, and the fields of the
/// document that it binds, by name.
pub open spec fn update_stmt(collection_name: Seq<char>) -> (Seq<char>, Seq<Seq<char>>) {
    if collection_name == "item"@ {
        (
            "UPDATE _item SET rating = :rating, user_score = :user_score, user_wins = :user_wins, user_losses = :user_losses WHERE id = :id AND user_id = :user_id"@,
            seq!["id"@, "user_id"@, "rating"@, "user_score"@, "user_wins"@, "user_losses"@],
        )
    } else {
        (
            "UPDATE _list SET mode = :mode, name = :name, sources = :sources, iframe = :iframe, items = :items, favorite = :favorite, query = :query, public = :public WHERE id = :id AND user_id = :user_id"@,
            seq!["id"@, "user_id"@, "mode"@, "name"@, "sources"@, "iframe"@, "items"@, "favorite"@, "query"@, "public"@],
        )
    }
}

/// The characters of each text.
pub open spec fn texts(v: Seq<&str>) -> Seq<Seq<char>> {
    v.map_values(|s: &str| s@)
}

/// The statement that replaces a document of `collection_name`, with the fields that
/// it binds (see `update_stmt`).
pub fn get_update_stmt(collection_name: &str) -> (r: (&'static str, Vec<&'static str>))
    requires
        is_collection(collection_name@),
    ensures
        r.0@ == update_stmt(collection_name@).0,
        texts(r.1@) == update_stmt(collection_name@).1,
{
    if str_eq(collection_name, "item") {
        let fields = vec!["id", "user_id", "rating", "user_score", "user_wins", "user_losses"];
        assert(texts(fields@) =~= update_stmt(collection_name@).1);
        (
            "UPDATE _item SET rating = :rating, user_score = :user_score, user_wins = :user_wins, user_losses = :user_losses WHERE id = :id AND user_id = :user_id",
            fields,
        )
    } else {
        let fields = vec![
            "id",
            "user_id",
            "mode",
            "name",
            "sources",
            "iframe",
            "items",
            "favorite",
            "query",
            "public",
        ];
        assert(texts(fields@) =~= update_stmt(collection_name@).1);
        (
            "UPDATE _list SET mode = :mode, name = :name, sources = :sources, iframe = :iframe, items = :items, favorite = :favorite, query = :query, public = :public WHERE id = :id AND user_id = :user_id",
            fields,
        )
    }
}

/// The message of the error that a query gets for naming a table that queries may
/// not see (the schema and the tables under the views), checked in this order.
pub open spec fn hidden_table_error(query: Seq<char>) -> Option<Seq<char>> {
    if contains_text(query, "sqlite_schema"@) {
        Some("no such table: sqlite_schema"@)
    } else if contains_text(query, "sqlite_master"@) {
        Some("no such table: sqlite_master"@)
    } else if contains_text(query, "_list"@) {
        Some("no such table: _list"@)
    } else if contains_text(query, "_item"@) {
        Some("no such table: _item"@)
    } else {
        None
    }
}

/// Refuses a query that names a table that queries may not see.
pub fn check_query_tables(query: &str) -> (r: Result<(), Error>)
    ensures
        match r {
            Ok(()) => hidden_table_error(query@) is None,
            Err(e) => hidden_table_error(query@) matches Some(m) && e.client_message() == Some(m),
        },
{
    if contains_str(query, "sqlite_schema") {
        return Err(Error::client_error("no such table: sqlite_schema"));
    }
    if contains_str(query, "sqlite_master") {
        return Err(Error::client_error("no such table: sqlite_master"));
    }
    if contains_str(query, "_list") {
        return Err(Error::client_error("no such table: _list"));
    }
    if contains_str(query, "_item") {
        return Err(Error::client_error("no such table: _item"));
    }
    Ok(())
}

/// A text in single quotes.
pub open spec fn quoted(s: Seq<char>) -> Seq<char> {
    "'"@ + s + "'"@
}

/// The texts, each in single quotes, separated by commas.
pub open spec fn quoted_list(ids: Seq<Seq<char>>) -> Seq<char>
    decreases ids.len(),
{
    if ids.len() == 0 {
        Seq::empty()
    } else if ids.len() == 1 {
        quoted(ids[0])
    } else {
        quoted_list(ids.drop_last()) + ","@ + quoted(ids.last())
    }
}

/// The characters of each string.
pub open spec fn string_texts(v: Seq<String>) -> Seq<Seq<char>> {
    v.map_values(|s: String| s@)
}

/// The views `list` and `item` that stand for the tables of one user, of some of
/// that user's items, of the public lists, or of some items of the public lists.
pub open spec fn view_sql(view: View) -> Seq<char> {
    match view {
        View::User(user_id) => user_view_sql(user_id.0@),
        View::List(user_id, ids) =>
            "CREATE TEMP VIEW list AS SELECT * FROM _list WHERE user_id = '"@ + user_id.0@
                + "';\n                        CREATE TEMP VIEW item AS SELECT * FROM _item WHERE user_id = '"@
                + user_id.0@ + "' AND id IN ("@ + quoted_list(string_texts(ids@)) + ");"@,
        View::Public => public_view_sql(),
        View::PublicList(ids) =>
            "CREATE TEMP VIEW list AS SELECT * FROM _list WHERE public = true;\n                        CREATE TEMP VIEW item AS SELECT _item.* FROM _list, json_each(_list.items) JOIN _item ON _item.id=json_each.value->>'id' WHERE public = true AND _item.id IN ("@
                + quoted_list(string_texts(ids@)) + ");"@,
    }
}

/// The views of one user's lists and items.
pub open spec fn user_view_sql(user_id: Seq<char>) -> Seq<char> {
    "CREATE TEMP VIEW list AS SELECT * FROM _list WHERE user_id = '"@ + user_id
        + "';\n                        CREATE TEMP VIEW item AS SELECT * FROM _item WHERE user_id = '"@
        + user_id + "';"@
}

/// The views of the public lists and their items.
pub open spec fn public_view_sql() -> Seq<char> {
    "CREATE TEMP VIEW list AS SELECT * FROM _list WHERE public = true;\n                    CREATE TEMP VIEW item AS SELECT _item.* FROM _list, json_each(_list.items) JOIN _item ON _item.id=json_each.value->>'id' WHERE public = true;"@
}

/// The ids, each in single quotes, separated by commas.
fn quote_ids(ids: &Vec<String>) -> (r: String)
    ensures
        r@ == quoted_list(string_texts(ids@)),
{
    let mut acc = String::new();
    let mut i: usize = 0;
    while i < ids.len()
        invariant
            i <= ids@.len(),
            acc@ == quoted_list(string_texts(ids@.take(i as int))),
        decreases ids.len() - i,
    {
        let ghost before = acc@;
        proof {
            let t = string_texts(ids@.take(i + 1));
            assert(t.drop_last() =~= string_texts(ids@.take(i as int)));
            assert(t.last() == ids@[i as int]@);
        }
        if i > 0 {
            acc.append(",");
        }
        acc.append("'");
        acc.append(ids[i].as_str());
        acc.append("'");
        proof {
            let q = quoted(ids@[i as int]@);
            if i == 0 {
                assert(acc@ =~= q);
            } else {
                assert(acc@ =~= before + ","@ + q);
            }
        }
        i = i + 1;
    }
    assert(ids@.take(ids@.len() as int) =~= ids@);
    acc
}

/// The statements that create the views `list` and `item` through which a query
/// sees the database (see `view_sql`).
pub fn view_statements(partition_key: &View) -> (r: String)
    ensures
        r@ == view_sql(*partition_key),
{
    match partition_key {
        View::User(user_id) => user_view_statements(user_id),
        View::List(user_id, ids) => {
            let quoted_ids = quote_ids(ids);
            String::from_str("CREATE TEMP VIEW list AS SELECT * FROM _list WHERE user_id = '")
                .concat(user_id.0.as_str())
                .concat("';\n                        CREATE TEMP VIEW item AS SELECT * FROM _item WHERE user_id = '")
                .concat(user_id.0.as_str())
                .concat("' AND id IN (")
                .concat(quoted_ids.as_str())
                .concat(");")
        },
        View::Public => String::from_str(
            "CREATE TEMP VIEW list AS SELECT * FROM _list WHERE public = true;\n                    CREATE TEMP VIEW item AS SELECT _item.* FROM _list, json_each(_list.items) JOIN _item ON _item.id=json_each.value->>'id' WHERE public = true;",
        ),
        View::PublicList(ids) => {
            let quoted_ids = quote_ids(ids);
            String::from_str(
                "CREATE TEMP VIEW list AS SELECT * FROM _list WHERE public = true;\n                        CREATE TEMP VIEW item AS SELECT _item.* FROM _list, json_each(_list.items) JOIN _item ON _item.id=json_each.value->>'id' WHERE public = true AND _item.id IN (",
            ).concat(quoted_ids.as_str()).concat(");")
        },
    }
}

/// The views of one user's lists and items.
fn user_view_statements(user_id: &UserId) -> (r: String)
    ensures
        r@ == user_view_sql(user_id.0@),
{
    String::from_str("CREATE TEMP VIEW list AS SELECT * FROM _list WHERE user_id = '")
        .concat(user_id.0.as_str())
        .concat("';\n                        CREATE TEMP VIEW item AS SELECT * FROM _item WHERE user_id = '")
        .concat(user_id.0.as_str())
        .concat("';")
}

/// The views through which a single document is read: those of one user or of the
/// public lists; a server error for any other view.
pub fn document_view_statements(partition_key: &View) -> (r: Result<String, Error>)
    ensures
        match *partition_key {
            View::User(user_id) => r matches Ok(s) && s@ == user_view_sql(user_id.0@),
            View::Public => r matches Ok(s) && s@ == public_view_sql(),
            _ => r matches Err(Error::InternalError(crate::zeroflops::InternalError::Error(m))) && m@
                == "unsupported view"@,
        },
{
    match partition_key {
        View::User(user_id) => Ok(user_view_statements(user_id)),
        View::Public => Ok(
            String::from_str(
                "CREATE TEMP VIEW list AS SELECT * FROM _list WHERE public = true;\n                    CREATE TEMP VIEW item AS SELECT _item.* FROM _list, json_each(_list.items) JOIN _item ON _item.id=json_each.value->>'id' WHERE public = true;",
            ),
        ),
        _ => Err(Error::internal_error("unsupported view")),
    }
}

/// The statement that reads the document with a given id from a collection.
pub fn get_document_stmt(collection_name: &str) -> (r: String)
    ensures
        r@ == "SELECT * FROM "@ + collection_name@ + " WHERE id = ?1"@,
{
    String::from_str("SELECT * FROM ").concat(collection_name).concat(" WHERE id = ?1")
}

/// The statement that deletes the document with a given id from the table under a
/// collection.
pub fn delete_stmt(collection_name: &str) -> (r: String)
    ensures
        r@ == "DELETE FROM _"@ + collection_name@ + " WHERE id = ?1"@,
{
    String::from_str("DELETE FROM _").concat(collection_name).concat(" WHERE id = ?1")
}

} // verus!
