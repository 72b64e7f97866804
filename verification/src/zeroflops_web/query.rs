use crate::sql::{
    print_query, sql_printed_query,
    SqlDialect, SqlParseOutcome, parse_error_message, parse_query, sql_parse_may_panic, sql_parse_outcome,
    sql_query_model,
    SqlBinOp, SqlExpr, SqlFunctionArg, SqlIdent, SqlQuery, SqlSelect, SqlSelectEntry, SqlSelectItem, SqlTable,
    and, double_quoted, is_equality, is_plain_compound, is_plain_identifier, plain_ident, plain_identifier,
    quote_double,
};
use crate::text::{find_text, is_first_occurrence, str_eq};
use crate::zeroflops::{Error, ItemMetadata, Items, List, ListMode};
use crate::zeroflops_web::UserId;
use vstd::prelude::*;

verus! {

/// The columns that items have; any other name is read from an item's metadata.
pub open spec fn item_fields() -> Seq<Seq<char>> {
    seq![
        "id"@,
        "type"@,
        "name"@,
        "iframe"@,
        "rating"@,
        "user_score"@,
        "user_wins"@,
        "user_losses"@,
        "hidden"@,
    ]
}

/// Whether `name` is a column of items.
pub fn is_item_field(name: &str) -> (r: bool)
    ensures
        r == item_fields().contains(name@),
{
    let fields = ["id", "type", "name", "iframe", "rating", "user_score", "user_wins", "user_losses", "hidden"];
    proof {
        assert(fields@.map_values(|s: &str| s@) =~= item_fields());
    }
    let mut i: usize = 0;
    while i < 9
        invariant
            i <= 9,
            fields@.map_values(|s: &str| s@) == item_fields(),
            forall|j: int| 0 <= j < i ==> item_fields()[j] != name@,
        decreases 9 - i,
    {
        if str_eq(fields[i], name) {
            assert(item_fields()[i as int] == name@);
            return true;
        }
        i = i + 1;
    }
    assert(!item_fields().contains(name@)) by {
        if item_fields().contains(name@) {
            let k = choose|k: int| 0 <= k < 9 && item_fields()[k] == name@;
            assert(item_fields()[k] != name@);
        }
    }
    false
}

/// Whether `e` is what an identifier becomes: itself where it names a column of
/// items, else `metadata -> '<name>'`.
pub open spec fn is_rewritten_identifier(id: SqlIdent, e: SqlExpr) -> bool {
    if item_fields().contains(id.value@) {
        e == SqlExpr::Identifier(id)
    } else {
        e matches SqlExpr::JsonArrow(l, r) && is_plain_identifier(*l, "metadata"@) && is_plain_identifier(
            *r,
            "'"@ + id.value@ + "'"@,
        )
    }
}

/// What an identifier becomes in a query over items (see `is_rewritten_identifier`).
pub fn rewrite_identifier(id: SqlIdent) -> (r: SqlExpr)
    ensures
        is_rewritten_identifier(id, r),
{
    if is_item_field(id.value.as_str()) {
        SqlExpr::Identifier(id)
    } else {
        let quoted = String::from_str("'").concat(id.value.as_str()).concat("'");
        SqlExpr::JsonArrow(
            Box::new(plain_identifier(String::from_str("metadata"))),
            Box::new(plain_identifier(quoted)),
        )
    }
}

/// Whether the argument `a` is what `b` becomes: a bare identifier is rewritten, any
/// other argument stays.
pub open spec fn arg_rewrites_to(b: SqlFunctionArg, a: SqlFunctionArg) -> bool {
    match b {
        SqlFunctionArg::Unnamed(SqlExpr::Identifier(id)) => a matches SqlFunctionArg::Unnamed(e)
            && is_rewritten_identifier(id, e),
        _ => a == b,
    }
}

/// Whether `a` is what the expression `b` becomes: identifiers are rewritten, through
/// binary operators, in the tested value of `IN` and in the bare arguments of
/// function calls; everything else stays as it is.
pub open spec fn rewrites_to(b: SqlExpr, a: SqlExpr) -> bool
    decreases b,
{
    match b {
        SqlExpr::Identifier(id) => is_rewritten_identifier(id, a),
        SqlExpr::InList(e, list, negated) => a matches SqlExpr::InList(e2, list2, negated2) && list2 == list
            && negated2 == negated && match *e {
            SqlExpr::Identifier(id) => is_rewritten_identifier(id, *e2),
            _ => *e2 == *e,
        },
        SqlExpr::BinaryOp(l, op, r) => a matches SqlExpr::BinaryOp(l2, op2, r2) && op2 == op && rewrites_to(*l, *l2)
            && rewrites_to(*r, *r2),
        SqlExpr::Function(f, args) => a matches SqlExpr::Function(f2, args2) && f2 == f && args2@.len()
            == args@.len() && forall|i: int| 0 <= i < args@.len() ==> #[trigger] arg_rewrites_to(args@[i], args2@[i]),
        _ => a == b,
    }
}

/// Whether no bare identifier that names no column of items is left where the
/// rewriting reads: as the whole expression, as the value that `IN` tests, on either
/// side of a binary operation, or as a bare argument of a call.
pub open spec fn reads_columns_only(e: SqlExpr) -> bool
    decreases e,
{
    match e {
        SqlExpr::Identifier(id) => item_fields().contains(id.value@),
        SqlExpr::InList(x, _, _) => match *x {
            SqlExpr::Identifier(id) => item_fields().contains(id.value@),
            _ => true,
        },
        SqlExpr::BinaryOp(l, _, r) => reads_columns_only(*l) && reads_columns_only(*r),
        SqlExpr::Function(_, args) => forall|i: int| 0 <= i < args@.len() ==> (#[trigger] args@[i] matches SqlFunctionArg::Unnamed(
            SqlExpr::Identifier(id),
        ) ==> item_fields().contains(id.value@)),
        _ => true,
    }
}

/// After the rewriting, every name that the query reads where the rewriting reaches is
/// a column of items: any other name has been turned into a read of the metadata.
pub proof fn lemma_rewrite_reads_columns(b: SqlExpr, a: SqlExpr)
    requires
        rewrites_to(b, a),
    ensures
        reads_columns_only(a),
    decreases b,
{
    match b {
        SqlExpr::BinaryOp(l, op, r) => {
            if let SqlExpr::BinaryOp(l2, op2, r2) = a {
                lemma_rewrite_reads_columns(*l, *l2);
                lemma_rewrite_reads_columns(*r, *r2);
            }
        },
        SqlExpr::Function(f, args) => {
            if let SqlExpr::Function(f2, args2) = a {
                assert forall|i: int| 0 <= i < args2@.len() implies (#[trigger] args2@[i] matches SqlFunctionArg::Unnamed(
                    SqlExpr::Identifier(id),
                ) ==> item_fields().contains(id.value@)) by {
                    assert(arg_rewrites_to(args@[i], args2@[i]));
                }
            }
        },
        _ => {},
    }
}

/// The value that `IN` tests is read like any name: a name that is no column of items
/// becomes `metadata -> '<name>'`, and the list and its negation stay.
pub proof fn lemma_in_list_reads_metadata(id: SqlIdent, list: Vec<SqlExpr>, negated: bool, a: SqlExpr)
    requires
        rewrites_to(SqlExpr::InList(Box::new(SqlExpr::Identifier(id)), list, negated), a),
        !item_fields().contains(id.value@),
    ensures
        a matches SqlExpr::InList(e2, list2, negated2) && list2 == list && negated2 == negated
            && (*e2 matches SqlExpr::JsonArrow(l, r) && is_plain_identifier(*l, "metadata"@)
            && is_plain_identifier(*r, "'"@ + id.value@ + "'"@)),
{
}

/// Rewrites the identifiers of an expression (see `rewrites_to`).
pub fn rewrite_expr(e: SqlExpr) -> (r: SqlExpr)
    ensures
        rewrites_to(e, r),
        reads_columns_only(r),
    decreases e,
{
    let ghost e0 = e;
    let r = match e {
        SqlExpr::Identifier(id) => rewrite_identifier(id),
        SqlExpr::InList(inner, list, negated) => {
            let tested = match *inner {
                SqlExpr::Identifier(id) => rewrite_identifier(id),
                other => other,
            };
            SqlExpr::InList(Box::new(tested), list, negated)
        },
        SqlExpr::BinaryOp(l, op, r) => {
            let l2 = rewrite_expr(*l);
            let r2 = rewrite_expr(*r);
            SqlExpr::BinaryOp(Box::new(l2), op, Box::new(r2))
        },
        SqlExpr::Function(f, args) => SqlExpr::Function(f, rewrite_args(args)),
        other => other,
    };
    proof {
        lemma_rewrite_reads_columns(e0, r);
    }
    r
}

/// Rewrites the bare identifiers among the arguments of a call.
fn rewrite_args(args: Vec<SqlFunctionArg>) -> (r: Vec<SqlFunctionArg>)
    ensures
        r@.len() == args@.len(),
        forall|i: int| 0 <= i < args@.len() ==> #[trigger] arg_rewrites_to(args@[i], r@[i]),
{
    let ghost orig = args@;
    let mut rest = args;
    let mut out: Vec<SqlFunctionArg> = Vec::new();
    let n = rest.len();
    let mut i: usize = 0;
    while i < n
        invariant
            n == orig.len(),
            i <= n,
            rest@ == orig.subrange(i as int, n as int),
            out@.len() == i,
            forall|j: int| 0 <= j < i ==> #[trigger] arg_rewrites_to(orig[j], out@[j]),
        decreases n - i,
    {
        let a = rest.remove(0);
        assert(a == orig[i as int]);
        let b = match a {
            SqlFunctionArg::Unnamed(SqlExpr::Identifier(id)) => SqlFunctionArg::Unnamed(rewrite_identifier(id)),
            other => other,
        };
        out.push(b);
        i = i + 1;
        assert(rest@ =~= orig.subrange(i as int, n as int));
    }
    out
}

/// Rewrites each expression of a list.
fn rewrite_exprs(v: Vec<SqlExpr>) -> (r: Vec<SqlExpr>)
    ensures
        r@.len() == v@.len(),
        forall|i: int| 0 <= i < v@.len() ==> #[trigger] rewrites_to(v@[i], r@[i]),
{
    let ghost orig = v@;
    let mut rest = v;
    let mut out: Vec<SqlExpr> = Vec::new();
    let n = rest.len();
    let mut i: usize = 0;
    while i < n
        invariant
            n == orig.len(),
            i <= n,
            rest@ == orig.subrange(i as int, n as int),
            out@.len() == i,
            forall|j: int| 0 <= j < i ==> #[trigger] rewrites_to(orig[j], out@[j]),
        decreases n - i,
    {
        let e = rest.remove(0);
        assert(e == orig[i as int]);
        out.push(rewrite_expr(e));
        i = i + 1;
        assert(rest@ =~= orig.subrange(i as int, n as int));
    }
    out
}

/// `id IN (ids...)`, each id a bare identifier (the ids come quoted already).
pub fn id_filter(ids: &Vec<String>) -> (r: SqlExpr)
    ensures
        r matches SqlExpr::InList(e, list, negated) && !negated && is_plain_compound(*e, seq!["id"@])
            && list@.len() == ids@.len() && forall|i: int| 0 <= i < ids@.len() ==> #[trigger] is_plain_identifier(
            list@[i],
            ids@[i]@,
        ),
{
    let mut list: Vec<SqlExpr> = Vec::new();
    let mut i: usize = 0;
    while i < ids.len()
        invariant
            i <= ids@.len(),
            list@.len() == i,
            forall|j: int| 0 <= j < i ==> #[trigger] is_plain_identifier(list@[j], ids@[j]@),
        decreases ids.len() - i,
    {
        list.push(plain_identifier(ids[i].clone()));
        i = i + 1;
    }
    let mut parts: Vec<SqlIdent> = Vec::new();
    parts.push(plain_ident(String::from_str("id")));
    SqlExpr::InList(Box::new(SqlExpr::CompoundIdentifier(parts)), list, false)
}

/// The error of the first SELECT item, from position `k` on, that the rewriting
/// refuses: an aliased item or a wildcard.
pub open spec fn projection_error(items: Seq<SqlSelectEntry>, k: int) -> Option<Seq<char>>
    decreases items.len() - k,
{
    if k < 0 || k >= items.len() {
        None
    } else {
        match items[k].item {
            SqlSelectItem::WithAlias => Some("alias is not supported"@),
            SqlSelectItem::Wildcard => Some("wildcard is not supported"@),
            SqlSelectItem::Unnamed(_) => projection_error(items, k + 1),
        }
    }
}

/// The message of the client error that the rewriting answers a query with, if it
/// refuses it: not a SELECT, no FROM, an aliased table, or a refused SELECT item.
pub open spec fn rewrite_error(q: SqlQuery) -> Option<Seq<char>> {
    match q.select {
        None => Some("Only SELECT queries are supported"@),
        Some(s) => match s.from {
            None => Some("FROM clause is omitted"@),
            Some(SqlTable::Named(_, true)) => Some("alias is not supported"@),
            _ => projection_error(s.projection@, 0),
        },
    }
}

/// Whether `e` is the condition that keeps a query to one user's items:
/// `user_id = "<user>"`.
pub open spec fn is_user_condition(e: SqlExpr, user_id: Seq<char>) -> bool {
    is_equality(e, seq!["user_id"@], double_quoted(user_id))
}

/// Whether a WHERE keeps a query to one user's items: it is the user's condition, or
/// that condition AND something more.
pub open spec fn restricted_to_user(sel: SqlExpr, user_id: Seq<char>) -> bool {
    is_user_condition(sel, user_id) || (sel matches SqlExpr::BinaryOp(l, op, _) && op == SqlBinOp::And
        && is_user_condition(*l, user_id))
}

/// Whether `sel` is the WHERE of the rewritten query: the user's condition, AND the
/// filter where there is one, AND the rewritten WHERE of the query where it has one.
pub open spec fn is_rewritten_selection(
    old_sel: Option<SqlExpr>,
    filter: Option<SqlExpr>,
    sel: SqlExpr,
    user_id: Seq<char>,
) -> bool {
    match (filter, old_sel) {
        (None, None) => is_user_condition(sel, user_id),
        (None, Some(s)) => sel matches SqlExpr::BinaryOp(l, op, r) && op == SqlBinOp::And && is_user_condition(*l, user_id)
            && rewrites_to(s, *r),
        (Some(f), None) => sel matches SqlExpr::BinaryOp(l, op, r) && op == SqlBinOp::And && is_user_condition(*l, user_id)
            && *r == f,
        (Some(f), Some(s)) => sel matches SqlExpr::BinaryOp(l, op, r) && op == SqlBinOp::And && is_user_condition(*l, user_id)
            && (*r matches SqlExpr::BinaryOp(fl, op2, sr) && op2 == SqlBinOp::And && *fl == f && rewrites_to(s, *sr)),
    }
}

/// Whether `(q2, names)` is the rewriting of `q` for `user_id` with `filter`: it reads
/// the table of items, its SELECT items, GROUP BY and ORDER BY are rewritten in
/// place, its WHERE is `is_rewritten_selection`, and `names` are the texts of the
/// SELECT items as written.
pub open spec fn is_rewritten_query(
    q: SqlQuery,
    user_id: Seq<char>,
    filter: Option<SqlExpr>,
    q2: SqlQuery,
    names: Seq<String>,
) -> bool {
    q.select matches Some(s) && q2.select matches Some(s2) && {
        &&& s2.from matches Some(SqlTable::Named(t, alias)) && t@ == "item"@ && !alias
        &&& s2.projection@.len() == s.projection@.len()
        &&& names.len() == s.projection@.len()
        &&& forall|i: int| 0 <= i < s.projection@.len() ==> {
            &&& #[trigger] s2.projection@[i].text == s.projection@[i].text
            &&& names[i] == s.projection@[i].text
            &&& s.projection@[i].item matches SqlSelectItem::Unnamed(e)
            &&& s2.projection@[i].item matches SqlSelectItem::Unnamed(e2)
            &&& rewrites_to(e, e2)
        }
        &&& s2.selection matches Some(sel) && is_rewritten_selection(s.selection, filter, sel, user_id)
        &&& s2.group_by@.len() == s.group_by@.len()
        &&& forall|i: int| 0 <= i < s.group_by@.len() ==> #[trigger] rewrites_to(s.group_by@[i], s2.group_by@[i])
        &&& q2.order_by@.len() == q.order_by@.len()
        &&& forall|i: int| 0 <= i < q.order_by@.len() ==> #[trigger] rewrites_to(q.order_by@[i], q2.order_by@[i])
    }
}

/// Whether the query has a FROM that the rewriting can read: none, or a named table.
pub open spec fn from_is_table(q: SqlQuery) -> bool {
    q.select matches Some(s) ==> (s.from matches Some(t) ==> t is Named)
}

/// Rewrites a query so that it reads only the user's items: the first table becomes
/// `item`, names that are not columns of items are read from their metadata, and the
/// WHERE is joined to the user's condition and to the filter. Refuses what the
/// rewriting cannot do with a client error.
pub fn rewrite_query_impl(query: SqlQuery, user_id: &UserId, filter: Option<SqlExpr>) -> (r: Result<
    (SqlQuery, Vec<String>),
    Error,
>)
    requires
        from_is_table(query),
    ensures
        match r {
            Ok((q2, names)) => rewrite_error(query) is None && is_rewritten_query(query, user_id.0@, filter, q2, names@),
            Err(e) => rewrite_error(query) matches Some(m) && e.client_message() == Some(m),
        },
        r matches Ok((q2, _)) ==> q2.select matches Some(s2) && s2.selection matches Some(sel) && restricted_to_user(
            sel,
            user_id.0@,
        ),
{
    let ghost q = query;
    let SqlQuery { select, order_by } = query;
    let select = match select {
        Some(s) => s,
        None => return Err(Error::client_error("Only SELECT queries are supported")),
    };
    let SqlSelect { projection, from, selection, group_by } = select;
    match from {
        None => return Err(Error::client_error("FROM clause is omitted")),
        Some(SqlTable::Named(_, alias)) => if alias {
            return Err(Error::client_error("alias is not supported"));
        },
        Some(SqlTable::Other) => {},
    }
    let ghost items = projection@;
    assert(rewrite_error(query) == projection_error(items, 0));
    let mut rest = projection;
    let n = rest.len();
    let mut names: Vec<String> = Vec::new();
    let mut new_items: Vec<SqlSelectEntry> = Vec::new();
    let mut i: usize = 0;
    while i < n
        invariant
            n == items.len(),
            i <= n,
            rest@ == items.subrange(i as int, n as int),
            projection_error(items, 0) == projection_error(items, i as int),
            rewrite_error(query) == projection_error(items, 0),
            names@.len() == i,
            new_items@.len() == i,
            forall|j: int| 0 <= j < i ==> {
                &&& #[trigger] new_items@[j].text == items[j].text
                &&& names@[j] == items[j].text
                &&& items[j].item matches SqlSelectItem::Unnamed(e)
                &&& new_items@[j].item matches SqlSelectItem::Unnamed(e2)
                &&& rewrites_to(e, e2)
            },
        decreases n - i,
    {
        let entry = rest.remove(0);
        assert(entry == items[i as int]);
        let SqlSelectEntry { text, item } = entry;
        match item {
            SqlSelectItem::Unnamed(e) => {
                names.push(text.clone());
                new_items.push(SqlSelectEntry { text, item: SqlSelectItem::Unnamed(rewrite_expr(e)) });
            },
            SqlSelectItem::WithAlias => return Err(Error::client_error("alias is not supported")),
            SqlSelectItem::Wildcard => return Err(Error::client_error("wildcard is not supported")),
        }
        i = i + 1;
        assert(rest@ =~= items.subrange(i as int, n as int));
    }
    let user_condition = SqlExpr::BinaryOp(
        Box::new(SqlExpr::CompoundIdentifier(vec![plain_ident(String::from_str("user_id"))])),
        SqlBinOp::Eq,
        Box::new(plain_identifier(quote_double(user_id.0.as_str()))),
    );
    let sanitized = match selection {
        Some(s) => Some(rewrite_expr(s)),
        None => None,
    };
    let combined = match (filter, sanitized) {
        (None, None) => None,
        (None, Some(s)) => Some(s),
        (Some(f), None) => Some(f),
        (Some(f), Some(s)) => Some(and(f, s)),
    };
    let new_selection = match combined {
        Some(c) => and(user_condition, c),
        None => user_condition,
    };
    let new_select = SqlSelect {
        projection: new_items,
        from: Some(SqlTable::Named(String::from_str("item"), false)),
        selection: Some(new_selection),
        group_by: rewrite_exprs(group_by),
    };
    Ok((SqlQuery { select: Some(new_select), order_by: rewrite_exprs(order_by) }, names))
}

/// Rewrites a query so that it reads only the user's items (see `rewrite_query_impl`,
/// without a filter).
pub fn rewrite_query(query: SqlQuery, user_id: &UserId) -> (r: Result<(SqlQuery, Vec<String>), Error>)
    requires
        from_is_table(query),
    ensures
        match r {
            Ok((q2, names)) => rewrite_error(query) is None && is_rewritten_query(query, user_id.0@, None, q2, names@),
            Err(e) => rewrite_error(query) matches Some(m) && e.client_message() == Some(m),
        },
        r matches Ok((q2, _)) ==> q2.select matches Some(s2) && s2.selection matches Some(sel) && restricted_to_user(
            sel,
            user_id.0@,
        ),
{
    rewrite_query_impl(query, user_id, None)
}

/// The model of the query that a text holds, read in MySQL's dialect (see
/// `sql_query_model`); a client error with sqlparser's message, or `No query was
/// provided` where the text's last statement is no query.
pub fn into_query(text: &str) -> (r: Result<(sqlparser::ast::Query, SqlQuery), Error>)
    requires
        !sql_parse_may_panic(SqlDialect::MySql, text@),
    ensures
        match sql_parse_outcome(SqlDialect::MySql, text@) {
            SqlParseOutcome::Refused(e) => r matches Err(err) && err.client_message() == Some(parse_error_message(e)),
            SqlParseOutcome::NoQuery => r matches Err(err) && err.client_message() == Some("No query was provided"@),
            SqlParseOutcome::Query => r matches Ok((_, m)) && sql_query_model(SqlDialect::MySql, text@) == Some(m),
        },
{
    match parse_query(SqlDialect::MySql, text) {
        Ok(q) => Ok(q),
        Err(m) => Err(Error::ClientError(m)),
    }
}

/// Whether `q2` is `q` with its SELECT list replaced by the columns `id`, `name` and
/// `iframe`, each a bare identifier written as its name.
pub open spec fn has_item_columns(q: SqlQuery, q2: SqlQuery) -> bool {
    q.select matches Some(s) && q2.select matches Some(s2) && {
        &&& s2.from == s.from
        &&& s2.selection == s.selection
        &&& s2.group_by == s.group_by
        &&& q2.order_by == q.order_by
        &&& s2.projection@.len() == 3
        &&& is_item_column(s2.projection@[0], "id"@)
        &&& is_item_column(s2.projection@[1], "name"@)
        &&& is_item_column(s2.projection@[2], "iframe"@)
    }
}

/// Whether a SELECT item is the bare column `name`, written as its name.
pub open spec fn is_item_column(entry: SqlSelectEntry, name: Seq<char>) -> bool {
    entry.text@ == name && (entry.item matches SqlSelectItem::Unnamed(e) && is_plain_identifier(e, name))
}

/// The bare column `name` as a SELECT item.
fn item_column(name: &str) -> (r: SqlSelectEntry)
    ensures
        is_item_column(r, name@),
{
    SqlSelectEntry { text: String::from_str(name), item: SqlSelectItem::Unnamed(plain_identifier(String::from_str(name))) }
}

/// The query that reads the items of a view: its SELECT list replaced by `id`, `name`
/// and `iframe`, then rewritten for the user (see `rewrite_query_impl`). A query
/// without GROUP BY reads no items (`None`); one that is no SELECT is refused.
pub fn view_items_query(query: SqlQuery, user_id: &UserId) -> (r: Result<Option<(SqlQuery, Vec<String>)>, Error>)
    requires
        from_is_table(query),
    ensures
        query.select is None ==> (r matches Err(e) && e.client_message() == Some(
            "Only SELECT queries are supported"@,
        )),
        (query.select matches Some(s) && s.group_by@.len() == 0) ==> r matches Ok(None),
        (query.select matches Some(s) && s.group_by@.len() > 0) ==> exists|q2: SqlQuery|
            #[trigger] has_item_columns(query, q2) && match r {
                Ok(Some((q3, names))) => rewrite_error(q2) is None && is_rewritten_query(q2, user_id.0@, None, q3, names@),
                Ok(None) => false,
                Err(e) => rewrite_error(q2) matches Some(m) && e.client_message() == Some(m),
            },
{
    let ghost q = query;
    let SqlQuery { select, order_by } = query;
    let select = match select {
        Some(s) => s,
        None => return Err(Error::client_error("Only SELECT queries are supported")),
    };
    if select.group_by.len() == 0 {
        return Ok(None);
    }
    let SqlSelect { projection: _, from, selection, group_by } = select;
    let mut projection: Vec<SqlSelectEntry> = Vec::new();
    projection.push(item_column("id"));
    projection.push(item_column("name"));
    projection.push(item_column("iframe"));
    let with_columns = SqlQuery { select: Some(SqlSelect { projection, from, selection, group_by }), order_by };
    let ghost q2 = with_columns;
    assert(has_item_columns(q, q2));
    match rewrite_query_impl(with_columns, user_id, None) {
        Ok(x) => Ok(Some(x)),
        Err(e) => Err(e),
    }
}

/// The ids of the items, each in double quotes, in list order.
pub fn quote_item_ids(items: &Vec<ItemMetadata>) -> (r: Vec<String>)
    ensures
        r@.len() == items@.len(),
        forall|i: int| 0 <= i < items@.len() ==> #[trigger] r@[i]@ == double_quoted(items@[i].id@),
{
    let mut ids: Vec<String> = Vec::new();
    let mut i: usize = 0;
    while i < items.len()
        invariant
            i <= items@.len(),
            ids@.len() == i,
            forall|j: int| 0 <= j < i ==> #[trigger] ids@[j]@ == double_quoted(items@[j].id@),
        decreases items.len() - i,
    {
        ids.push(quote_double(items[i].id.as_str()));
        i = i + 1;
    }
    ids
}

/// Whether `k` is the first `FROM` of `query`, with a one-byte character before it.
pub open spec fn id_column_insertable(query: Seq<char>, k: int) -> bool {
    is_first_occurrence(query, "FROM"@, k) && k >= 1 && (query[k - 1] as u32) < 128
}

/// A list query with the column `id` added to its SELECT list: `, id ` goes in just
/// before the character that precedes the first `FROM`.
pub fn insert_id_column(query: &str) -> (r: String)
    requires
        exists|k: int| id_column_insertable(query@, k),
    ensures
        forall|k: int| id_column_insertable(query@, k) ==> r@ == query@.take(k - 1) + ", id "@ + query@.skip(k - 1),
{
    let k = find_text(query, "FROM").unwrap();
    proof {
        let w = choose|w: int| id_column_insertable(query@, w);
        lemma_first_occurrence_unique(query@, "FROM"@, k as int, w);
        assert forall|j: int| id_column_insertable(query@, j) implies j == k by {
            lemma_first_occurrence_unique(query@, "FROM"@, k as int, j);
        }
    }
    let n = query.unicode_len();
    let before = query.substring_char(0, k - 1);
    let after = query.substring_char(k - 1, n);
    String::from_str(before).concat(", id ").concat(after)
}

/// Whether `f` is the filter that keeps a query to the items: `id IN (...)` with the
/// items' ids in double quotes, in order, each a bare identifier.
pub open spec fn is_items_filter(f: SqlExpr, items: Seq<ItemMetadata>) -> bool {
    f matches SqlExpr::InList(e, list, negated) && !negated && is_plain_compound(*e, seq!["id"@])
        && list@.len() == items.len() && forall|i: int| 0 <= i < items.len() ==> #[trigger] is_plain_identifier(
        list@[i],
        double_quoted(items[i].id@),
    )
}

/// The text that a list's items are read with: a view's own query; for any other list
/// its query with the column `id` added (see `insert_id_column`).
pub fn list_query_source(list: &List) -> (r: String)
    requires
        !(list.mode is View) ==> exists|k: int| id_column_insertable(list.query@, k),
    ensures
        list.mode is View ==> r@ == list.query@,
        !(list.mode is View) ==> forall|k: int| #[trigger] id_column_insertable(list.query@, k) ==> r@ == list.query@.take(
            k - 1,
        ) + ", id "@ + list.query@.skip(k - 1),
{
    match list.mode {
        ListMode::View(_) => list.query.clone(),
        _ => insert_id_column(list.query.as_str()),
    }
}

/// Whether `(q2, names, ids)` is what a list's query `query` is rewritten into: a
/// view's query as `rewrite_query` does it; any other list's with the filter that keeps
/// it to the list's items (see `is_items_filter`); and the items' ids in list order.
pub open spec fn is_list_rewrite(
    list: List,
    user_id: Seq<char>,
    query: SqlQuery,
    q2: SqlQuery,
    names: Seq<String>,
    ids: Seq<String>,
) -> bool {
    &&& list.mode is View ==> is_rewritten_query(query, user_id, None, q2, names)
    &&& !(list.mode is View) ==> exists|f: SqlExpr| #[trigger] is_items_filter(f, list.items@)
        && is_rewritten_query(query, user_id, Some(f), q2, names)
    &&& ids.len() == list.items@.len()
    &&& forall|i: int| 0 <= i < list.items@.len() ==> #[trigger] ids[i]@ == list.items@[i].id@
}

/// Rewrites the model `query` of a list's query for its items (see `is_list_rewrite`);
/// the rewriting's client error where it refuses the query.
pub fn rewrite_list_model(list: &List, user_id: &UserId, query: SqlQuery) -> (r: Result<
    (SqlQuery, Vec<String>, Vec<String>),
    Error,
>)
    requires
        from_is_table(query),
    ensures
        match r {
            Ok((q2, names, ids)) => rewrite_error(query) is None && is_list_rewrite(*list, user_id.0@, query, q2, names@, ids@),
            Err(e) => rewrite_error(query) matches Some(m) && e.client_message() == Some(m),
        },
{
    let rewritten = match list.mode {
        ListMode::View(_) => rewrite_query(query, user_id),
        _ => {
            let quoted = quote_item_ids(&list.items);
            let filter = id_filter(&quoted);
            assert(is_items_filter(filter, list.items@)) by {
                if let SqlExpr::InList(e, l, negated) = filter {
                    assert forall|i: int| 0 <= i < list.items@.len() implies #[trigger] is_plain_identifier(
                        l@[i],
                        double_quoted(list.items@[i].id@),
                    ) by {
                        assert(is_plain_identifier(l@[i], quoted@[i]@));
                    }
                }
            }
            rewrite_query_impl(query, user_id, Some(filter))
        },
    };
    let (q2, names) = match rewritten {
        Ok(x) => x,
        Err(e) => return Err(e),
    };
    let mut ids: Vec<String> = Vec::new();
    let mut i: usize = 0;
    while i < list.items.len()
        invariant
            i <= list.items@.len(),
            ids@.len() == i,
            forall|j: int| 0 <= j < i ==> #[trigger] ids@[j]@ == list.items@[j].id@,
        decreases list.items.len() - i,
    {
        ids.push(list.items[i].id.clone());
        i = i + 1;
    }
    Ok((q2, names, ids))
}

/// The text that a list's items are read with (see `list_query_source`).
pub open spec fn list_source_text(list: List) -> Seq<char> {
    if list.mode is View {
        list.query@
    } else {
        let k = choose|k: int| id_column_insertable(list.query@, k);
        list.query@.take(k - 1) + ", id "@ + list.query@.skip(k - 1)
    }
}

/// Whether `t` is the text that sqlparser prints for `text`'s query rewritten from its
/// model `m` as a list's query for its items (see `is_list_rewrite`).
pub open spec fn is_printed_list_rewrite(
    list: List,
    text: Seq<char>,
    m: SqlQuery,
    user_id: Seq<char>,
    t: Seq<char>,
    names: Seq<String>,
    ids: Seq<String>,
) -> bool {
    exists|q2: SqlQuery| #[trigger] is_list_rewrite(list, user_id, m, q2, names, ids) && t == sql_printed_query(SqlDialect::MySql, text, q2)
}

/// Reads and rewrites a list's query for its items: the text that `list_query_source`
/// gives, read in MySQL's dialect, rewritten (see `is_list_rewrite`) and printed by
/// sqlparser. Gives the text that runs, the column names and the items' ids; the client
/// error of a text that holds no query, or of the rewriting.
pub fn rewrite_list_query(list: &List, user_id: &UserId) -> (r: Result<(String, Vec<String>, Vec<String>), Error>)
    requires
        !(list.mode is View) ==> exists|k: int| id_column_insertable(list.query@, k),
        !sql_parse_may_panic(SqlDialect::MySql, list_source_text(*list)),
        sql_query_model(SqlDialect::MySql, list_source_text(*list)) matches Some(m) ==> from_is_table(m),
    ensures
        match sql_parse_outcome(SqlDialect::MySql, list_source_text(*list)) {
            SqlParseOutcome::Refused(e) => r matches Err(err) && err.client_message() == Some(parse_error_message(e)),
            SqlParseOutcome::NoQuery => r matches Err(err) && err.client_message() == Some("No query was provided"@),
            SqlParseOutcome::Query => sql_query_model(SqlDialect::MySql, list_source_text(*list)) matches Some(m)
                && match r {
                Ok((t, names, ids)) => rewrite_error(m) is None && is_printed_list_rewrite(
                    *list,
                    list_source_text(*list),
                    m,
                    user_id.0@,
                    t@,
                    names@,
                    ids@,
                ),
                Err(e) => rewrite_error(m) matches Some(msg) && e.client_message() == Some(msg),
            },
        },
{
    let text = list_query_source(list);
    proof {
        if !(list.mode is View) {
            let k = choose|k: int| id_column_insertable(list.query@, k);
            assert(id_column_insertable(list.query@, k));
        }
        assert(text@ == list_source_text(*list));
    }
    let (_, model) = match into_query(text.as_str()) {
        Ok(x) => x,
        Err(e) => return Err(e),
    };
    let ghost m = model;
    match rewrite_list_model(list, user_id, model) {
        Ok((q2, names, ids)) => {
            proof {
                if list.mode is View {
                    assert(is_rewritten_query(m, user_id.0@, None, q2, names@));
                } else {
                    let f = choose|f: SqlExpr| #[trigger] is_items_filter(f, list.items@) && is_rewritten_query(
                        m,
                        user_id.0@,
                        Some(f),
                        q2,
                        names@,
                    );
                    assert(is_rewritten_query(m, user_id.0@, Some(f), q2, names@));
                    assert(is_items_filter(f, list.items@));
                }
                assert(rewritten_from(m, q2));
            }
            let ghost g = q2;
            let t = print_query(SqlDialect::MySql, text.as_str(), q2);
            proof {
                assert(is_list_rewrite(*list, user_id.0@, m, g, names@, ids@));
            }
            Ok((t, names, ids))
        },
        Err(e) => Err(e),
    }
}

/// Whether `model` is a rewriting of the query `m0` (see `is_rewritten_query`) for some
/// user, without a filter or with one that keeps it to some items; or a rewriting of
/// `m0` with its SELECT list replaced by the item columns (see `has_item_columns`).
pub open spec fn rewritten_from(m0: SqlQuery, model: SqlQuery) -> bool {
    ||| exists|u: Seq<char>, f: Option<SqlExpr>, names: Seq<String>|
        #[trigger] is_rewritten_query(m0, u, f, model, names) && (f matches Some(g) ==> exists|
            items: Seq<ItemMetadata>,
        | #[trigger] is_items_filter(g, items))
    ||| exists|m1: SqlQuery, u: Seq<char>, names: Seq<String>|
        #[trigger] has_item_columns(m0, m1) && #[trigger] is_rewritten_query(m1, u, None, model, names)
}

/// Whether `t` is the text that sqlparser prints for `text`'s query rewritten from its
/// model `m` for `user_id` with `filter` (see `is_rewritten_query`), with the column
/// names `names`.
pub open spec fn is_printed_rewrite(
    text: Seq<char>,
    m: SqlQuery,
    user_id: Seq<char>,
    filter: Option<SqlExpr>,
    t: Seq<char>,
    names: Seq<String>,
) -> bool {
    exists|q2: SqlQuery| #[trigger] is_rewritten_query(m, user_id, filter, q2, names) && t == sql_printed_query(SqlDialect::MySql, text, q2)
}

/// Reads a query in MySQL's dialect and rewrites it so that it reads only the user's
/// items (see `rewrite_query`); gives the text that runs, printed by sqlparser from the
/// rewritten model, and the column names. The client error of a text that holds no
/// query, or of the rewriting.
pub fn rewrite_query_text(text: &str, user_id: &UserId) -> (r: Result<(String, Vec<String>), Error>)
    requires
        !sql_parse_may_panic(SqlDialect::MySql, text@),
        sql_query_model(SqlDialect::MySql, text@) matches Some(m) ==> from_is_table(m),
    ensures
        match sql_parse_outcome(SqlDialect::MySql, text@) {
            SqlParseOutcome::Refused(e) => r matches Err(err) && err.client_message() == Some(parse_error_message(e)),
            SqlParseOutcome::NoQuery => r matches Err(err) && err.client_message() == Some("No query was provided"@),
            SqlParseOutcome::Query => sql_query_model(SqlDialect::MySql, text@) matches Some(m) && match r {
                Ok((t, names)) => rewrite_error(m) is None && is_printed_rewrite(text@, m, user_id.0@, None, t@, names@),
                Err(e) => rewrite_error(m) matches Some(msg) && e.client_message() == Some(msg),
            },
        },
{
    let (_, model) = match into_query(text) {
        Ok(x) => x,
        Err(e) => return Err(e),
    };
    let ghost m = model;
    match rewrite_query(model, user_id) {
        Ok((q2, names)) => {
            proof {
                assert(is_rewritten_query(m, user_id.0@, None, q2, names@));
                assert(rewritten_from(m, q2));
            }
            let ghost g = q2;
            let t = print_query(SqlDialect::MySql, text, q2);
            proof {
                assert(is_rewritten_query(m, user_id.0@, None, g, names@));
            }
            Ok((t, names))
        },
        Err(e) => Err(e),
    }
}

/// Reads a query in MySQL's dialect and rewrites it with the filter that keeps it to the
/// given items (see `is_items_filter`), so that it reads only the user's items among
/// them: the text that runs, printed by sqlparser, and the column names. The client
/// error of a text that holds no query, or of the rewriting.
pub fn rewrite_items_query_text(text: &str, user_id: &UserId, items: &Vec<ItemMetadata>) -> (r: Result<
    (String, Vec<String>),
    Error,
>)
    requires
        !sql_parse_may_panic(SqlDialect::MySql, text@),
        sql_query_model(SqlDialect::MySql, text@) matches Some(m) ==> from_is_table(m),
    ensures
        match sql_parse_outcome(SqlDialect::MySql, text@) {
            SqlParseOutcome::Refused(e) => r matches Err(err) && err.client_message() == Some(parse_error_message(e)),
            SqlParseOutcome::NoQuery => r matches Err(err) && err.client_message() == Some("No query was provided"@),
            SqlParseOutcome::Query => sql_query_model(SqlDialect::MySql, text@) matches Some(m) && match r {
                Ok((t, names)) => rewrite_error(m) is None && exists|f: SqlExpr| #[trigger] is_items_filter(f, items@)
                    && is_printed_rewrite(text@, m, user_id.0@, Some(f), t@, names@),
                Err(e) => rewrite_error(m) matches Some(msg) && e.client_message() == Some(msg),
            },
        },
{
    let (_, model) = match into_query(text) {
        Ok(x) => x,
        Err(e) => return Err(e),
    };
    let ghost m = model;
    let quoted = quote_item_ids(items);
    let filter = id_filter(&quoted);
    let ghost f = filter;
    assert(is_items_filter(filter, items@)) by {
        if let SqlExpr::InList(e, l, negated) = filter {
            assert forall|i: int| 0 <= i < items@.len() implies #[trigger] is_plain_identifier(
                l@[i],
                double_quoted(items@[i].id@),
            ) by {
                assert(is_plain_identifier(l@[i], quoted@[i]@));
            }
        }
    }
    match rewrite_query_impl(model, user_id, Some(filter)) {
        Ok((q2, names)) => {
            proof {
                assert(is_rewritten_query(m, user_id.0@, Some(f), q2, names@));
                assert(rewritten_from(m, q2));
            }
            let ghost g = q2;
            let t = print_query(SqlDialect::MySql, text, q2);
            proof {
                assert(is_rewritten_query(m, user_id.0@, Some(f), g, names@));
                assert(is_printed_rewrite(text@, m, user_id.0@, Some(f), t@, names@));
            }
            Ok((t, names))
        },
        Err(e) => Err(e),
    }
}

/// Reads a view's query in MySQL's dialect and gives the query that reads its items
/// (see `view_items_query`), printed by sqlparser, with its column names; `None` for a
/// query without GROUP BY. The client error of a text that holds no query, of one that
/// is no SELECT, or of the rewriting.
pub fn view_items_query_text(text: &str, user_id: &UserId) -> (r: Result<Option<(String, Vec<String>)>, Error>)
    requires
        !sql_parse_may_panic(SqlDialect::MySql, text@),
        sql_query_model(SqlDialect::MySql, text@) matches Some(m) ==> from_is_table(m),
    ensures
        match sql_parse_outcome(SqlDialect::MySql, text@) {
            SqlParseOutcome::Refused(e) => r matches Err(err) && err.client_message() == Some(parse_error_message(e)),
            SqlParseOutcome::NoQuery => r matches Err(err) && err.client_message() == Some("No query was provided"@),
            SqlParseOutcome::Query => sql_query_model(SqlDialect::MySql, text@) matches Some(m) && {
                &&& m.select is None ==> (r matches Err(e) && e.client_message() == Some(
                    "Only SELECT queries are supported"@,
                ))
                &&& (m.select is Some && m.select->0.group_by@.len() == 0) ==> (r matches Ok(None))
                &&& (m.select is Some && m.select->0.group_by@.len() > 0) ==> exists|q2: SqlQuery|
                    #[trigger] has_item_columns(m, q2) && match r {
                        Ok(Some((t, names))) => rewrite_error(q2) is None && is_printed_rewrite(
                            text@,
                            q2,
                            user_id.0@,
                            None,
                            t@,
                            names@,
                        ),
                        Ok(None) => false,
                        Err(e) => rewrite_error(q2) matches Some(msg) && e.client_message() == Some(msg),
                    }
            },
        },
{
    let (_, model) = match into_query(text) {
        Ok(x) => x,
        Err(e) => return Err(e),
    };
    let ghost m = model;
    match view_items_query(model, user_id) {
        Ok(Some((q3, names))) => {
            let ghost g = q3;
            proof {
                let q2 = choose|q2: SqlQuery| #[trigger] has_item_columns(m, q2) && rewrite_error(q2) is None
                    && is_rewritten_query(q2, user_id.0@, None, g, names@);
                assert(has_item_columns(m, q2));
                assert(is_rewritten_query(q2, user_id.0@, None, g, names@));
                assert(rewritten_from(m, g));
            }
            let t = print_query(SqlDialect::MySql, text, q3);
            proof {
                let q2 = choose|q2: SqlQuery| #[trigger] has_item_columns(m, q2) && rewrite_error(q2) is None
                    && is_rewritten_query(q2, user_id.0@, None, g, names@);
                assert(is_rewritten_query(q2, user_id.0@, None, g, names@));
                assert(is_printed_rewrite(text@, q2, user_id.0@, None, t@, names@));
            }
            Ok(Some((t, names)))
        },
        Ok(None) => Ok(None),
        Err(e) => Err(e),
    }
}

/// Where a text first occurs is unique.
pub proof fn lemma_first_occurrence_unique(s: Seq<char>, needle: Seq<char>, i: int, j: int)
    requires
        is_first_occurrence(s, needle, i),
        is_first_occurrence(s, needle, j),
    ensures
        i == j,
{
    if i < j {
        assert(!crate::text::occurs_at(s, needle, i));
    } else if j < i {
        assert(!crate::text::occurs_at(s, needle, j));
    }
}

/// The texts joined by `sep`.
pub open spec fn joined(v: Seq<Seq<char>>, sep: Seq<char>) -> Seq<char>
    decreases v.len(),
{
    if v.len() == 0 {
        Seq::empty()
    } else if v.len() == 1 {
        v[0]
    } else {
        joined(v.drop_last(), sep) + sep + v.last()
    }
}

/// `n` question marks separated by commas.
pub open spec fn placeholders(n: nat) -> Seq<char>
    decreases n,
{
    if n <= 1 {
        "?"@
    } else {
        placeholders((n - 1) as nat) + ",?"@
    }
}

/// The columns that a list query reads where no columns are asked for.
pub open spec fn default_item_columns() -> Seq<char> {
    "id, type, name, rating, user_score, user_wins, user_losses, hidden, metadata"@
}

/// The query that reads the given columns (or the usual ones) of a user's list items,
/// the user as parameter 1 and the `n` item ids as the parameters after it.
pub open spec fn list_items_sql(fields: Option<Seq<Seq<char>>>, n: nat) -> Seq<char> {
    "SELECT "@ + match fields {
        Some(f) => joined(f, ", "@),
        None => default_item_columns(),
    } + " FROM item WHERE user_id = ?1 AND id IN ("@ + placeholders(n) + ")"@
}

/// The query text for reading a list's items (see `list_items_sql`).
pub fn list_items_query(fields: Option<&Vec<String>>, n: usize) -> (r: String)
    requires
        n >= 1,
    ensures
        r@ == list_items_sql(
            match fields {
                Some(f) => Some(f@.map_values(|s: String| s@)),
                None => None,
            },
            n as nat,
        ),
{
    let columns = match fields {
        Some(f) => join_texts(f, ", "),
        None => String::from_str("id, type, name, rating, user_score, user_wins, user_losses, hidden, metadata"),
    };
    let mut marks = String::from_str("?");
    let mut i: usize = 1;
    while i < n
        invariant
            1 <= i <= n,
            marks@ == placeholders(i as nat),
        decreases n - i,
    {
        marks.append(",?");
        i = i + 1;
    }
    String::from_str("SELECT ").concat(columns.as_str()).concat(" FROM item WHERE user_id = ?1 AND id IN (").concat(
        marks.as_str(),
    ).concat(")")
}

/// The texts joined by `sep` (see `joined`).
pub(crate) fn join_texts(v: &Vec<String>, sep: &str) -> (r: String)
    ensures
        r@ == joined(v@.map_values(|s: String| s@), sep@),
{
    let ghost all = v@.map_values(|s: String| s@);
    let mut acc = String::new();
    let mut i: usize = 0;
    while i < v.len()
        invariant
            i <= v@.len(),
            all == v@.map_values(|s: String| s@),
            acc@ == joined(all.take(i as int), sep@),
        decreases v.len() - i,
    {
        proof {
            assert(all.take(i + 1).drop_last() =~= all.take(i as int));
        }
        if i > 0 {
            acc.append(sep);
        }
        acc.append(v[i].as_str());
        proof {
            if i == 0 {
                assert(acc@ =~= all.take(1)[0]);
            }
        }
        i = i + 1;
    }
    assert(all.take(v@.len() as int) =~= all);
    acc
}

/// Whether some text of `v` is `s`.
pub open spec fn has_text(v: Seq<String>, s: Seq<char>) -> bool {
    exists|i: int| 0 <= i < v.len() && #[trigger] v[i]@ == s
}

/// The ids of `ids` that the query found, in list order.
pub open spec fn found_in_list_order(ids: Seq<String>, found: Seq<String>) -> Seq<Seq<char>>
    decreases ids.len(),
{
    if ids.len() == 0 {
        Seq::empty()
    } else {
        let rest = found_in_list_order(ids.drop_last(), found);
        if has_text(found, ids.last()@) {
            rest.push(ids.last()@)
        } else {
            rest
        }
    }
}

/// Keeps the list order where the query gave none: the list's ids that the query
/// found, in list order.
pub fn order_by_list(ids: &Vec<String>, found: &Vec<String>) -> (r: Vec<String>)
    ensures
        r@.map_values(|s: String| s@) == found_in_list_order(ids@, found@),
{
    let mut out: Vec<String> = Vec::new();
    let mut i: usize = 0;
    while i < ids.len()
        invariant
            i <= ids@.len(),
            out@.map_values(|s: String| s@) == found_in_list_order(ids@.take(i as int), found@),
        decreases ids.len() - i,
    {
        proof {
            assert(ids@.take(i + 1).drop_last() =~= ids@.take(i as int));
        }
        let mut j: usize = 0;
        let mut hit = false;
        while j < found.len()
            invariant
                i < ids@.len(),
                j <= found@.len(),
                hit == exists|t: int| 0 <= t < j && #[trigger] found@[t]@ == ids@[i as int]@,
            decreases found.len() - j,
        {
            if str_eq(found[j].as_str(), ids[i].as_str()) {
                hit = true;
            }
            j = j + 1;
        }
        if hit {
            out.push(ids[i].clone());
            proof {
                assert(out@.map_values(|s: String| s@) =~= found_in_list_order(ids@.take(i as int), found@).push(
                    ids@[i as int]@,
                ));
            }
        }
        i = i + 1;
    }
    assert(ids@.take(ids@.len() as int) =~= ids@);
    out
}

} // verus!
