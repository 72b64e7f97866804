use bops::sql::{SqlBinOp, SqlExpr, SqlSelectItem, SqlTable};
use bops::zeroflops::Error;
use bops::zeroflops::{ItemMetadata, List, ListMode};
use bops::zeroflops_web::query::{
    list_query_source, rewrite_items_query_text, rewrite_list_query, rewrite_query_text,
    view_items_query_text,
};
use bops::zeroflops_web::UserId;
use bops::sql::{parse_may_panic, parse_query, SqlDialect};
use bops::zeroflops_web::query::into_query;

fn rewrite(text: &str, ids: &[&str]) -> Result<(String, Vec<String>), String> {
    let items: Vec<ItemMetadata> = ids
        .iter()
        .map(|id| ItemMetadata::new(String::from(*id), String::from("n"), None))
        .collect();
    match rewrite_items_query_text(text, &UserId(String::from("demo")), &items) {
        Ok(x) => Ok(x),
        Err(Error::ClientError(m)) => Err(m),
        Err(other) => panic!("unexpected error {other:?}"),
    }
}

fn rewrite_query(text: &str) -> Result<(String, Vec<String>), String> {
    match rewrite_query_text(text, &UserId(String::from("demo"))) {
        Ok(x) => Ok(x),
        Err(Error::ClientError(m)) => Err(m),
        Err(other) => panic!("unexpected error {other:?}"),
    }
}

#[test]
fn query_test_select() {
    let (query, column_names) = rewrite_query("SELECT name, user_score FROM tracks").unwrap();
    assert_eq!(
        query,
        "SELECT name, user_score FROM item WHERE user_id = \"demo\""
    );
    assert_eq!(column_names, vec!["name", "user_score"]);
}

#[test]
fn query_test_where() {
    for (input, expected) in [
        ("SELECT name, user_score FROM tracks WHERE user_score >= 1500",
         "SELECT name, user_score FROM item WHERE user_id = \"demo\" AND user_score >= 1500"),
        ("SELECT name, user_score FROM tracks WHERE user_score IN (1500)",
         "SELECT name, user_score FROM item WHERE user_id = \"demo\" AND user_score IN (1500)"),
        ("SELECT name, user_score FROM tracks WHERE album = 'foo'",
         "SELECT name, user_score FROM item WHERE user_id = \"demo\" AND metadata -> 'album' = 'foo'"),
        ("SELECT name, user_score FROM tracks WHERE album = \"foo\"",
         "SELECT name, user_score FROM item WHERE user_id = \"demo\" AND metadata -> 'album' = \"foo\""),
        ("SELECT name, user_score FROM tracks WHERE ARRAY_CONTAINS(artists, \"foo\")",
         "SELECT name, user_score FROM item WHERE user_id = \"demo\" AND ARRAY_CONTAINS(metadata -> 'artists', \"foo\")"),
    ] {
        let (query, column_names) = rewrite_query(input).unwrap();
        assert_eq!(query, expected);
        assert_eq!(column_names, vec!["name", "user_score"]);
    }
}

#[test]
fn test_id_filter() {
    for (input, expected) in [
        ("SELECT name, user_score FROM tracks WHERE user_score >= 1500",
         "SELECT name, user_score FROM item WHERE user_id = \"demo\" AND id IN (\"1\", \"2\", \"3\") AND user_score >= 1500"),
        ("SELECT name, user_score FROM tracks WHERE user_score IN (1500)",
         "SELECT name, user_score FROM item WHERE user_id = \"demo\" AND id IN (\"1\", \"2\", \"3\") AND user_score IN (1500)"),
    ] {
        let (query, column_names) = rewrite(input, &["1", "2", "3"]).unwrap();
        assert_eq!(query, expected);
        assert_eq!(column_names, vec!["name", "user_score"]);
    }
}

#[test]
fn query_test_group_by() {
    let (query, column_names) =
        rewrite_query("SELECT artists, AVG(user_score) FROM tracks GROUP BY artists").unwrap();
    assert_eq!(query, "SELECT metadata -> 'artists', AVG(user_score) FROM item WHERE user_id = \"demo\" GROUP BY metadata -> 'artists'");
    assert_eq!(column_names, vec!["artists", "AVG(user_score)"]);
}

#[test]
fn query_test_order_by() {
    let (query, column_names) =
        rewrite_query("SELECT name, user_score FROM tracks ORDER BY user_score").unwrap();
    assert_eq!(
        query,
        "SELECT name, user_score FROM item WHERE user_id = \"demo\" ORDER BY user_score"
    );
    assert_eq!(column_names, vec!["name", "user_score"]);
}

#[test]
fn query_test_count() {
    let (query, column_names) = rewrite_query("SELECT COUNT(1) FROM tracks").unwrap();
    assert_eq!(query, "SELECT COUNT(1) FROM item WHERE user_id = \"demo\"");
    assert_eq!(column_names, vec!["COUNT(1)"]);
}

#[test]
fn test_hidden_false() {
    let (query, column_names) =
        rewrite_query("SELECT name, user_score FROM tracks WHERE hidden = false").unwrap();
    assert_eq!(
        query,
        "SELECT name, user_score FROM item WHERE user_id = \"demo\" AND hidden = false"
    );
    assert_eq!(column_names, vec!["name", "user_score"]);
}

#[test]
fn test_hidden_true() {
    let (query, column_names) =
        rewrite_query("SELECT name, user_score FROM tracks WHERE hidden = true").unwrap();
    assert_eq!(
        query,
        "SELECT name, user_score FROM item WHERE user_id = \"demo\" AND hidden = true"
    );
    assert_eq!(column_names, vec!["name", "user_score"]);
}

#[test]
fn query_test_errors() {
    for (input, expected) in [
        ("", "No query was provided"),
        ("S", "Expected an SQL statement, found: S"),
        ("SELECT", "Expected an expression:, found: EOF"),
        ("SELECT name", "FROM clause is omitted"),
        ("SELECT name FROM", "Expected identifier, found: EOF"),
        (
            "SELECT name FROM tracks WHERE",
            "Expected an expression:, found: EOF",
        ),
        (
            "SELECT name, user_score FROM tracks WHERE user_score IN (",
            "Expected an expression:, found: EOF",
        ),
        (
            "SELECT name, user_score FROM tracks WHERE user_score IN (1500",
            "Expected ), found: EOF",
        ),
    ] {
        assert_eq!(rewrite_query(input).unwrap_err(), expected);
    }
}

#[test]
fn rewrite_refuses_aliases_and_wildcards() {
    assert_eq!(
        rewrite_query("SELECT name AS n FROM tracks").unwrap_err(),
        "alias is not supported"
    );
    assert_eq!(
        rewrite_query("SELECT * FROM tracks").unwrap_err(),
        "wildcard is not supported"
    );
    assert_eq!(
        rewrite_query("SELECT name FROM tracks AS t").unwrap_err(),
        "alias is not supported"
    );
    assert_eq!(
        rewrite_query("SELECT name FROM a UNION SELECT name FROM b").unwrap_err(),
        "Only SELECT queries are supported"
    );
}

fn topbops_rewrite(text: &str) -> Result<(String, Vec<String>), String> {
    match bops::topbops_web::query::rewrite_query_text(
        text,
        &bops::topbops_web::UserId(String::from("demo")),
    ) {
        Ok(x) => Ok(x),
        Err(bops::topbops_web::Error::SqlError(m)) => Err(m),
    }
}

#[test]
fn topbops_query_test_select() {
    let (query, column_names) = topbops_rewrite("SELECT name, user_score FROM tracks").unwrap();
    assert_eq!(
        query,
        "SELECT c.name, c.user_score FROM c WHERE c.user_id = \"demo\" AND c.type = \"track\""
    );
    assert_eq!(column_names, vec!["name", "user_score"]);
}

#[test]
fn topbops_query_test_where() {
    for (input, expected) in [
        ("SELECT name, user_score FROM tracks WHERE user_score >= 1500",
         "SELECT c.name, c.user_score FROM c WHERE c.user_id = \"demo\" AND c.type = \"track\" AND c.user_score >= 1500"),
        ("SELECT name, user_score FROM tracks WHERE user_score IN (1500)",
         "SELECT c.name, c.user_score FROM c WHERE c.user_id = \"demo\" AND c.type = \"track\" AND c.user_score IN (1500)"),
    ] {
        let (query, column_names) = topbops_rewrite(input).unwrap();
        assert_eq!(query, expected);
        assert_eq!(column_names, vec!["name", "user_score"]);
    }
}

#[test]
fn topbops_query_test_group_by() {
    let (query, column_names) =
        topbops_rewrite("SELECT artists, AVG(user_score) FROM tracks GROUP BY artists").unwrap();
    assert_eq!(query, "SELECT c.metadata.artists, AVG(c.user_score) FROM c WHERE c.user_id = \"demo\" AND c.type = \"track\" GROUP BY c.metadata.artists");
    assert_eq!(column_names, vec!["artists", "AVG(user_score)"]);
}

#[test]
fn topbops_query_test_order_by() {
    let (query, column_names) =
        topbops_rewrite("SELECT name, user_score FROM tracks ORDER BY user_score").unwrap();
    assert_eq!(query, "SELECT c.name, c.user_score FROM c WHERE c.user_id = \"demo\" AND c.type = \"track\" ORDER BY c.user_score");
    assert_eq!(column_names, vec!["name", "user_score"]);
}

#[test]
fn topbops_query_test_count() {
    let (query, column_names) = topbops_rewrite("SELECT COUNT(1) FROM tracks").unwrap();
    assert_eq!(
        query,
        "SELECT COUNT(1) FROM c WHERE c.user_id = \"demo\" AND c.type = \"track\""
    );
    assert_eq!(column_names, vec!["COUNT(1)"]);
}

#[test]
fn topbops_query_test_errors() {
    for (input, expected) in [
        ("", "No query was provided"),
        ("S", "Expected an SQL statement, found: S"),
        ("SELECT", "Expected an expression:, found: EOF"),
        ("SELECT name", "FROM clause is omitted"),
        ("SELECT name FROM", "Expected identifier, found: EOF"),
        (
            "SELECT name FROM tracks WHERE",
            "Expected an expression:, found: EOF",
        ),
        (
            "SELECT name, user_score FROM tracks WHERE user_score IN (",
            "Expected an expression:, found: EOF",
        ),
        (
            "SELECT name, user_score FROM tracks WHERE user_score IN (1500",
            "Expected ), found: EOF",
        ),
    ] {
        assert_eq!(topbops_rewrite(input).unwrap_err(), expected);
    }
}

fn transform(text: &str) -> String {
    bops::smashsort::transform_select_text(text, "demo")
}

#[test]
fn main_test_select() {
    assert_eq!(
        transform("SELECT track, score FROM tracks"),
        "SELECT c.metadata.track, c.score FROM c WHERE c.user_id = \"demo\" AND c.type = \"track\""
    );
}

#[test]
fn main_test_where() {
    assert_eq!(
        transform("SELECT track, score FROM tracks WHERE score >= 1500"),
        "SELECT c.metadata.track, c.score FROM c WHERE c.user_id = \"demo\" AND c.type = \"track\" AND c.score >= 1500"
    );
}

#[test]
fn main_test_group_by() {
    assert_eq!(
        transform("SELECT artists, AVG(score) FROM tracks GROUP BY artists"),
        "SELECT c.metadata.artists, AVG(c.score) FROM c WHERE c.user_id = \"demo\" AND c.type = \"track\" GROUP BY c.metadata.artists"
    );
}

#[test]
fn view_items_read_item_columns() {
    let user = UserId(String::from("demo"));
    let (query, names) =
        view_items_query_text("SELECT artists, AVG(user_score) FROM tracks GROUP BY artists", &user)
            .unwrap()
            .unwrap();
    assert_eq!(names, vec!["id", "name", "iframe"]);
    assert_eq!(
        query,
        "SELECT id, name, iframe FROM item WHERE user_id = \"demo\" GROUP BY metadata -> 'artists'"
    );
    assert!(view_items_query_text("SELECT name FROM tracks", &user).unwrap().is_none());
}

#[test]
fn parse_refusals() {
    let deep = format!("SELECT {}1{} FROM t", "(".repeat(200), ")".repeat(200));
    match into_query(&deep) {
        Err(Error::ClientError(m)) => assert_eq!(m, "Query is too long"),
        other => panic!("unexpected {other:?}"),
    }
    match into_query("DROP TABLE t") {
        Err(Error::ClientError(m)) => assert_eq!(m, "No query was provided"),
        other => panic!("unexpected {other:?}"),
    }
    assert!(parse_query(SqlDialect::Generic, "SELECT 'unterminated")
        .unwrap_err()
        .starts_with("Unterminated string literal at Line: 1"));
}

#[test]
fn grants_without_grantor_are_found() {
    assert!(parse_may_panic(SqlDialect::Generic, "GRANT SELECT ON t TO u GRANTED BY"));
    assert!(parse_may_panic(SqlDialect::MySql, "REVOKE SELECT ON t FROM u granted  by ;"));
    assert!(!parse_may_panic(SqlDialect::Generic, "GRANT SELECT ON t TO u GRANTED BY admin"));
    assert!(!parse_may_panic(SqlDialect::Generic, "SELECT 'granted by' FROM t"));
    assert!(!parse_may_panic(SqlDialect::MySql, "SELECT name FROM tracks"));
    assert!(parse_query(SqlDialect::Generic, "GRANT SELECT ON t TO u GRANTED BY admin").is_err());
}

#[test]
fn query_models_read_the_text() {
    let (_, model) = into_query("SELECT name AS n, user_score FROM tracks AS t WHERE a = b").unwrap();
    let select = model.select.unwrap();
    assert_eq!(select.projection.len(), 2);
    assert_eq!(select.projection[0].text, "name AS n");
    assert_eq!(select.projection[0].item, SqlSelectItem::WithAlias);
    assert_eq!(select.projection[1].text, "user_score");
    assert_eq!(select.from, Some(SqlTable::Named(String::from("tracks"), true)));
    match select.selection {
        Some(SqlExpr::BinaryOp(l, SqlBinOp::Eq, r)) => {
            assert!(matches!(*l, SqlExpr::Identifier(ref id) if id.value == "a"));
            assert!(matches!(*r, SqlExpr::Identifier(ref id) if id.value == "b"));
        }
        other => panic!("unexpected {other:?}"),
    }
    assert!(model.order_by.is_empty());
}

fn list_with(mode: ListMode, query: &str) -> List {
    List {
        id: String::from("l"),
        user_id: String::from("demo"),
        mode,
        name: String::from("List"),
        sources: Vec::new(),
        iframe: None,
        items: ["1", "2", "3"]
            .into_iter()
            .map(|id| ItemMetadata::new(String::from(id), String::from("n"), None))
            .collect(),
        favorite: false,
        query: String::from(query),
        public: false,
    }
}

fn rewrite_list(list: &List) -> (String, Vec<String>, Vec<String>) {
    rewrite_list_query(list, &UserId(String::from("demo"))).unwrap()
}

#[test]
fn list_queries_keep_to_the_items() {
    let list = list_with(
        ListMode::User(None),
        "SELECT name, user_score FROM tracks WHERE user_score >= 1500",
    );
    assert_eq!(
        list_query_source(&list),
        "SELECT name, user_score, id  FROM tracks WHERE user_score >= 1500"
    );
    let (query, names, ids) = rewrite_list(&list);
    assert_eq!(
        query,
        "SELECT name, user_score, id FROM item WHERE user_id = \"demo\" AND id IN (\"1\", \"2\", \"3\") AND user_score >= 1500"
    );
    assert_eq!(names, vec!["name", "user_score", "id"]);
    assert_eq!(ids, vec!["1", "2", "3"]);
}

#[test]
fn view_queries_are_rewritten_as_they_are() {
    let list = list_with(ListMode::View(None), "SELECT name FROM tracks");
    assert_eq!(list_query_source(&list), "SELECT name FROM tracks");
    let (query, names, ids) = rewrite_list(&list);
    assert_eq!(query, "SELECT name FROM item WHERE user_id = \"demo\"");
    assert_eq!(names, vec!["name"]);
    assert_eq!(ids, vec!["1", "2", "3"]);
    let refused = list_with(ListMode::View(None), "SELECT * FROM tracks");
    match rewrite_list_query(&refused, &UserId(String::from("demo"))) {
        Err(Error::ClientError(m)) => assert_eq!(m, "wildcard is not supported"),
        other => panic!("unexpected {other:?}"),
    }
}

#[test]
fn topbops_aliased_tables_are_refused_before_their_name_is_read() {
    assert_eq!(
        topbops_rewrite("SELECT name FROM café AS t").unwrap_err(),
        "alias is not supported"
    );
}
