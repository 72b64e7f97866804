use crate::sql::{
    print_query, sql_printed_query,
    SqlDialect, SqlParseOutcome, parse_error_message, parse_query, sql_parse_may_panic, sql_parse_outcome,
    sql_query_model,
    SqlBinOp, SqlExpr, SqlFunctionArg, SqlIdent, SqlQuery, SqlSelect, SqlSelectEntry, SqlSelectItem, SqlTable,
    and, double_quoted, is_equality, is_plain_identifier, plain_ident, plain_identifier, quote_double,
};
use crate::text::{find_text, is_first_occurrence, str_eq};
use crate::topbops::{List, ListMode};
use crate::topbops_web::{Error, UserId};
use crate::zeroflops_web::query::lemma_first_occurrence_unique;
use vstd::prelude::*;

verus! {

/// The columns of items; any other name is read from an item's metadata.
pub open spec fn item_fields() -> Seq<Seq<char>> {
    seq!["id"@, "name"@, "rating"@, "user_score"@, "user_wins"@, "user_losses"@, "hidden"@]
}

/// Whether `name` is a column of items.
pub fn is_item_field(name: &str) -> (r: bool)
    ensures
        r == item_fields().contains(name@),
{
    let fields = ["id", "name", "rating", "user_score", "user_wins", "user_losses", "hidden"];
    proof {
        assert(fields@.map_values(|s: &str| s@) =~= item_fields());
    }
    let mut i: usize = 0;
    while i < 7
        invariant
            i <= 7,
            fields@.map_values(|s: &str| s@) == item_fields(),
            forall|j: int| 0 <= j < i ==> item_fields()[j] != name@,
        decreases 7 - i,
    {
        if str_eq(fields[i], name) {
            assert(item_fields()[i as int] == name@);
            return true;
        }
        i = i + 1;
    }
    assert(!item_fields().contains(name@)) by {
        if item_fields().contains(name@) {
            let k = choose|k: int| 0 <= k < 7 && item_fields()[k] == name@;
            assert(item_fields()[k] != name@);
        }
    }
    false
}

/// Whether `e` is what an identifier becomes: `c.<name>` for a column of items,
/// `c.metadata.<name>` otherwise, the identifier itself kept as the last part.
pub open spec fn is_rewritten_identifier(id: SqlIdent, e: SqlExpr) -> bool {
    e matches SqlExpr::CompoundIdentifier(ids) && if item_fields().contains(id.value@) {
        ids@.len() == 2 && ids@[0].value@ == "c"@ && ids@[0].quote_style is None && ids@[1] == id
    } else {
        ids@.len() == 3 && ids@[0].value@ == "c"@ && ids@[0].quote_style is None && ids@[1].value@ == "metadata"@
            && ids@[1].quote_style is None && ids@[2] == id
    }
}

/// What an identifier becomes (see `is_rewritten_identifier`).
pub fn rewrite_identifier(id: SqlIdent) -> (r: SqlExpr)
    ensures
        is_rewritten_identifier(id, r),
{
    let mut parts: Vec<SqlIdent> = Vec::new();
    parts.push(plain_ident(String::from_str("c")));
    if !is_item_field(id.value.as_str()) {
        parts.push(plain_ident(String::from_str("metadata")));
    }
    parts.push(id);
    SqlExpr::CompoundIdentifier(parts)
}

/// Whether the arguments `a` are what `b` become: the last argument, where it is a bare
/// identifier, is rewritten; all others stay.
pub open spec fn args_rewrite_to(b: Seq<SqlFunctionArg>, a: Seq<SqlFunctionArg>) -> bool {
    a.len() == b.len() && (b.len() > 0 ==> {
        &&& forall|i: int| 0 <= i < b.len() - 1 ==> #[trigger] a[i] == b[i]
        &&& match b.last() {
            SqlFunctionArg::Unnamed(SqlExpr::Identifier(id)) => a.last() matches SqlFunctionArg::Unnamed(e)
                && is_rewritten_identifier(id, e),
            _ => a.last() == b.last(),
        }
    })
}

/// Whether `a` is what the expression `b` becomes: identifiers are rewritten through
/// binary operators, in the tested value of `IN` and in the last argument of a call.
pub open spec fn rewrites_to(b: SqlExpr, a: SqlExpr) -> bool
    decreases b,
{
    match b {
        SqlExpr::Identifier(id) => is_rewritten_identifier(id, a),
        SqlExpr::InList(e, list, negated) => a matches SqlExpr::InList(e2, list2, negated2) && list2 == list
            && negated2 == negated && match *e {
            SqlExpr::Identifier(id) => is_rewritten_identifier(id, *e2),
            _ => *e2 == *e,
        },
        SqlExpr::BinaryOp(l, op, r) => a matches SqlExpr::BinaryOp(l2, op2, r2) && op2 == op && rewrites_to(*l, *l2)
            && rewrites_to(*r, *r2),
        SqlExpr::Function(f, args) => a matches SqlExpr::Function(f2, args2) && f2 == f && args_rewrite_to(
            args@,
            args2@,
        ),
        _ => a == b,
    }
}

/// Whether `e` reads a name of an item of the collection `c`: `c.<column>` for a
/// column of items, `c.metadata.<name>` for any other name.
pub open spec fn is_collection_read(e: SqlExpr) -> bool {
    e matches SqlExpr::CompoundIdentifier(ids) && ids@.len() >= 2 && ids@[0].value@ == "c"@
        && ids@[0].quote_style is None && if item_fields().contains(ids@.last().value@) {
        ids@.len() == 2
    } else {
        ids@.len() == 3 && ids@[1].value@ == "metadata"@ && ids@[1].quote_style is None
    }
}

/// Whether a name at a place that the rewriting reaches is read from the collection:
/// no bare name is left there, and a compound one reads from `c` as it should.
pub open spec fn read_in_place(e: SqlExpr) -> bool {
    match e {
        SqlExpr::Identifier(_) => false,
        SqlExpr::CompoundIdentifier(_) => is_collection_read(e),
        _ => true,
    }
}

/// Whether every name where the rewriting reaches (the whole expression, the value
/// that `IN` tests, either side of a binary operation, the last argument of a call) is
/// read from the collection (see `read_in_place`).
pub open spec fn collection_reads(e: SqlExpr) -> bool
    decreases e,
{
    match e {
        SqlExpr::Identifier(_) => read_in_place(e),
        SqlExpr::CompoundIdentifier(_) => read_in_place(e),
        SqlExpr::InList(x, _, _) => read_in_place(*x),
        SqlExpr::BinaryOp(l, _, r) => collection_reads(*l) && collection_reads(*r),
        SqlExpr::Function(_, args) => args@.len() > 0 ==> (args@.last() matches SqlFunctionArg::Unnamed(x) ==> read_in_place(x)),
        _ => true,
    }
}

/// Whether the query writes only plain names where the rewriting reaches: no compound
/// name stands there.
pub open spec fn plain_names(e: SqlExpr) -> bool
    decreases e,
{
    match e {
        SqlExpr::CompoundIdentifier(_) => false,
        SqlExpr::InList(x, _, _) => !(*x is CompoundIdentifier),
        SqlExpr::BinaryOp(l, _, r) => plain_names(*l) && plain_names(*r),
        SqlExpr::Function(_, args) => args@.len() > 0 ==> (args@.last() matches SqlFunctionArg::Unnamed(x) ==> !(x is CompoundIdentifier)),
        _ => true,
    }
}

/// For a query written with plain names, the rewriting reads every name that it reaches
/// from the collection: `c.<column>` for a column of items, `c.metadata.<name>` for any
/// other name, and leaves no bare name there.
pub proof fn lemma_rewrite_reads_collection(b: SqlExpr, a: SqlExpr)
    requires
        rewrites_to(b, a),
        plain_names(b),
    ensures
        collection_reads(a),
    decreases b,
{
    match b {
        SqlExpr::BinaryOp(l, op, r) => {
            if let SqlExpr::BinaryOp(l2, op2, r2) = a {
                lemma_rewrite_reads_collection(*l, *l2);
                lemma_rewrite_reads_collection(*r, *r2);
            }
        },
        _ => {},
    }
}

/// The value that `IN` tests is read like any name: a name that is no column of items
/// becomes `c.metadata.<name>`, and the list and its negation stay.
pub proof fn lemma_in_list_reads_metadata(id: SqlIdent, list: Vec<SqlExpr>, negated: bool, a: SqlExpr)
    requires
        rewrites_to(SqlExpr::InList(Box::new(SqlExpr::Identifier(id)), list, negated), a),
        !item_fields().contains(id.value@),
    ensures
        a matches SqlExpr::InList(e2, list2, negated2) && list2 == list && negated2 == negated
            && (*e2 matches SqlExpr::CompoundIdentifier(ids) && ids@.len() == 3 && ids@[0].value@ == "c"@
            && ids@[1].value@ == "metadata"@ && ids@[2] == id),
{
}

/// Rewrites the identifiers of an expression (see `rewrites_to`).
pub fn rewrite_expr(e: SqlExpr) -> (r: SqlExpr)
    ensures
        rewrites_to(e, r),
        plain_names(e) ==> collection_reads(r),
    decreases e,
{
    let ghost e0 = e;
    let r = match e {
        SqlExpr::Identifier(id) => rewrite_identifier(id),
        SqlExpr::InList(inner, list, negated) => {
            let tested = match *inner {
                SqlExpr::Identifier(id) => rewrite_identifier(id),
                other => other,
            };
            SqlExpr::InList(Box::new(tested), list, negated)
        },
        SqlExpr::BinaryOp(l, op, r) => {
            let l2 = rewrite_expr(*l);
            let r2 = rewrite_expr(*r);
            SqlExpr::BinaryOp(Box::new(l2), op, Box::new(r2))
        },
        SqlExpr::Function(f, args) => {
            let ghost before = args@;
            let mut args = args;
            match args.pop() {
                Some(last) => {
                    let last2 = match last {
                        SqlFunctionArg::Unnamed(SqlExpr::Identifier(id)) => SqlFunctionArg::Unnamed(
                            rewrite_identifier(id),
                        ),
                        other => other,
                    };
                    args.push(last2);
                    assert forall|i: int| 0 <= i < before.len() - 1 implies #[trigger] args@[i] == before[i] by {}
                },
                None => {},
            }
            SqlExpr::Function(f, args)
        },
        other => other,
    };
    proof {
        if plain_names(e0) {
            lemma_rewrite_reads_collection(e0, r);
        }
    }
    r
}

/// Rewrites each expression of a list.
fn rewrite_exprs(v: Vec<SqlExpr>) -> (r: Vec<SqlExpr>)
    ensures
        r@.len() == v@.len(),
        forall|i: int| 0 <= i < v@.len() ==> #[trigger] rewrites_to(v@[i], r@[i]),
{
    let ghost orig = v@;
    let mut rest = v;
    let mut out: Vec<SqlExpr> = Vec::new();
    let n = rest.len();
    let mut i: usize = 0;
    while i < n
        invariant
            n == orig.len(),
            i <= n,
            rest@ == orig.subrange(i as int, n as int),
            out@.len() == i,
            forall|j: int| 0 <= j < i ==> #[trigger] rewrites_to(orig[j], out@[j]),
        decreases n - i,
    {
        let e = rest.remove(0);
        assert(e == orig[i as int]);
        out.push(rewrite_expr(e));
        i = i + 1;
        assert(rest@ =~= orig.subrange(i as int, n as int));
    }
    out
}

/// The error of the first SELECT item, from position `k` on, that the rewriting
/// refuses: an aliased item or a wildcard.
pub open spec fn projection_error(items: Seq<SqlSelectEntry>, k: int) -> Option<Seq<char>>
    decreases items.len() - k,
{
    if k < 0 || k >= items.len() {
        None
    } else {
        match items[k].item {
            SqlSelectItem::WithAlias => Some("alias is not supported"@),
            SqlSelectItem::Wildcard => Some("wildcard is not supported"@),
            SqlSelectItem::Unnamed(_) => projection_error(items, k + 1),
        }
    }
}

/// The message of the error that the rewriting answers a query with, if it refuses
/// it: not a SELECT, no FROM, an aliased table, or a refused SELECT item.
pub open spec fn rewrite_error(q: SqlQuery) -> Option<Seq<char>> {
    match q.select {
        None => Some("Only SELECT queries are supported"@),
        Some(s) => match s.from {
            None => Some("FROM clause is omitted"@),
            Some(SqlTable::Named(_, true)) => Some("alias is not supported"@),
            _ => projection_error(s.projection@, 0),
        },
    }
}

/// Whether the query's first table, if it has one, is a named table, and, where it has
/// no alias, is named with at least one character and a last character of one byte,
/// whose removal names the item type.
pub open spec fn from_is_named_table(q: SqlQuery) -> bool {
    q.select matches Some(s) ==> (s.from matches Some(t) ==> (t matches SqlTable::Named(name, alias) && (!alias
        ==> name@.len() > 0 && (name@.last() as u32) < 128)))
}

/// Whether `sel` is the WHERE of the rewritten query:
/// `c.user_id = "<user>" AND c.type = "<type>"`, with `AND` and the rewritten WHERE of
/// the query after the type where it has one.
pub open spec fn is_rewritten_selection(old_sel: Option<SqlExpr>, sel: SqlExpr, user_id: Seq<char>, item_type: Seq<char>) -> bool {
    sel matches SqlExpr::BinaryOp(l, op, r) && op == SqlBinOp::And && is_equality(
        *l,
        seq!["c"@, "user_id"@],
        double_quoted(user_id),
    ) && match old_sel {
        None => is_equality(*r, seq!["c"@, "type"@], double_quoted(item_type)),
        Some(s) => *r matches SqlExpr::BinaryOp(t, op2, s2) && op2 == SqlBinOp::And && is_equality(
            *t,
            seq!["c"@, "type"@],
            double_quoted(item_type),
        ) && rewrites_to(s, *s2),
    }
}

/// Whether `(q2, names)` is the rewriting of `q` for `user_id`: it reads the collection
/// `c`, keeps to the user's items of the type that the table names (its name without
/// the last character), and rewrites its SELECT items, WHERE, GROUP BY and ORDER BY.
pub open spec fn is_rewritten_query(q: SqlQuery, user_id: Seq<char>, q2: SqlQuery, names: Seq<String>) -> bool {
    q.select matches Some(s) && q2.select matches Some(s2) && s.from matches Some(SqlTable::Named(name, _)) && {
        &&& s2.from matches Some(SqlTable::Named(t, alias)) && t@ == "c"@ && !alias
        &&& s2.projection@.len() == s.projection@.len()
        &&& names.len() == s.projection@.len()
        &&& forall|i: int| 0 <= i < s.projection@.len() ==> {
            &&& #[trigger] s2.projection@[i].text == s.projection@[i].text
            &&& names[i] == s.projection@[i].text
            &&& s.projection@[i].item matches SqlSelectItem::Unnamed(e)
            &&& s2.projection@[i].item matches SqlSelectItem::Unnamed(e2)
            &&& rewrites_to(e, e2)
        }
        &&& s2.selection matches Some(sel) && is_rewritten_selection(s.selection, sel, user_id, name@.drop_last())
        &&& s2.group_by@.len() == s.group_by@.len()
        &&& forall|i: int| 0 <= i < s.group_by@.len() ==> #[trigger] rewrites_to(s.group_by@[i], s2.group_by@[i])
        &&& q2.order_by@.len() == q.order_by@.len()
        &&& forall|i: int| 0 <= i < q.order_by@.len() ==> #[trigger] rewrites_to(q.order_by@[i], q2.order_by@[i])
    }
}

/// `left = "value"`, where `left` is `c.<field>`.
fn c_equality(field: &str, value: &str) -> (r: SqlExpr)
    ensures
        is_equality(r, seq!["c"@, field@], double_quoted(value@)),
{
    let mut parts: Vec<SqlIdent> = Vec::new();
    parts.push(plain_ident(String::from_str("c")));
    parts.push(plain_ident(String::from_str(field)));
    SqlExpr::BinaryOp(
        Box::new(SqlExpr::CompoundIdentifier(parts)),
        SqlBinOp::Eq,
        Box::new(plain_identifier(quote_double(value))),
    )
}

/// Rewrites a query so that it reads only the user's items of the type that its
/// table names, with the names that are not columns read from the metadata; refuses
/// what it cannot rewrite with an error.
pub fn rewrite_query(query: SqlQuery, user_id: &UserId) -> (r: Result<(SqlQuery, Vec<String>), Error>)
    requires
        from_is_named_table(query),
    ensures
        match r {
            Ok((q2, names)) => rewrite_error(query) is None && is_rewritten_query(query, user_id.0@, q2, names@),
            Err(Error::SqlError(m)) => rewrite_error(query) == Some(m@),
        },
{
    let SqlQuery { select, order_by } = query;
    let select = match select {
        Some(s) => s,
        None => return Err(Error::SqlError(String::from_str("Only SELECT queries are supported"))),
    };
    let SqlSelect { projection, from, selection, group_by } = select;
    let table = if let Some(SqlTable::Named(name, alias)) = from {
        if alias {
            return Err(Error::SqlError(String::from_str("alias is not supported")));
        }
        name
    } else {
        return Err(Error::SqlError(String::from_str("FROM clause is omitted")));
    };
    let ghost items = projection@;
    assert(rewrite_error(query) == projection_error(items, 0));
    let mut rest = projection;
    let n = rest.len();
    let mut names: Vec<String> = Vec::new();
    let mut new_items: Vec<SqlSelectEntry> = Vec::new();
    let mut i: usize = 0;
    while i < n
        invariant
            n == items.len(),
            i <= n,
            rest@ == items.subrange(i as int, n as int),
            projection_error(items, 0) == projection_error(items, i as int),
            rewrite_error(query) == projection_error(items, 0),
            names@.len() == i,
            new_items@.len() == i,
            forall|j: int| 0 <= j < i ==> {
                &&& #[trigger] new_items@[j].text == items[j].text
                &&& names@[j] == items[j].text
                &&& items[j].item matches SqlSelectItem::Unnamed(e)
                &&& new_items@[j].item matches SqlSelectItem::Unnamed(e2)
                &&& rewrites_to(e, e2)
            },
        decreases n - i,
    {
        let entry = rest.remove(0);
        assert(entry == items[i as int]);
        let SqlSelectEntry { text, item } = entry;
        match item {
            SqlSelectItem::Unnamed(e) => {
                names.push(text.clone());
                new_items.push(SqlSelectEntry { text, item: SqlSelectItem::Unnamed(rewrite_expr(e)) });
            },
            SqlSelectItem::WithAlias => return Err(Error::SqlError(String::from_str("alias is not supported"))),
            SqlSelectItem::Wildcard => return Err(Error::SqlError(String::from_str("wildcard is not supported"))),
        }
        i = i + 1;
        assert(rest@ =~= items.subrange(i as int, n as int));
    }
    let len = table.as_str().unicode_len();
    let item_type = table.as_str().substring_char(0, len - 1);
    assert(item_type@ == table@.drop_last());
    let user_condition = c_equality("user_id", user_id.0.as_str());
    let type_condition = c_equality("type", item_type);
    let sanitized = match selection {
        Some(s) => and(type_condition, rewrite_expr(s)),
        None => type_condition,
    };
    let new_select = SqlSelect {
        projection: new_items,
        from: Some(SqlTable::Named(String::from_str("c"), false)),
        selection: Some(and(user_condition, sanitized)),
        group_by: rewrite_exprs(group_by),
    };
    Ok((SqlQuery { select: Some(new_select), order_by: rewrite_exprs(order_by) }, names))
}

/// The ids of the items, each in double quotes, joined by commas.
pub open spec fn quoted_ids(ids: Seq<Seq<char>>) -> Seq<char>
    decreases ids.len(),
{
    if ids.len() == 0 {
        Seq::empty()
    } else if ids.len() == 1 {
        double_quoted(ids[0])
    } else {
        quoted_ids(ids.drop_last()) + ","@ + double_quoted(ids.last())
    }
}

/// The list's query with `WHERE c.id IN (<its item ids>)` after it.
pub open spec fn with_id_filter(list: List) -> Seq<char> {
    list.query@ + " WHERE c.id IN ("@ + quoted_ids(list.items@.map_values(|i: crate::topbops::ItemMetadata| i.id@)) + ")"@
}

/// Whether the query text of an external list can take its extra columns: it has a
/// `FROM`, after at least one character of one byte.
pub open spec fn list_query_insertable(list: List, k: int) -> bool {
    is_first_occurrence(with_id_filter(list), "FROM"@, k) && k >= 1 && (with_id_filter(list)[k - 1] as u32) < 128
}

/// The text of the query that reads a list's items: a user's list runs its own query;
/// an external list reads only its items and adds the columns `rating` and `id`
/// before the character that precedes the first `FROM`.
pub fn list_query_text(list: &List) -> (r: String)
    requires
        list.mode != ListMode::User ==> exists|k: int| list_query_insertable(*list, k),
    ensures
        list.mode == ListMode::User ==> r@ == list.query@,
        list.mode != ListMode::User ==> forall|k: int| list_query_insertable(*list, k) ==> r@ == with_id_filter(*list).take(
            k - 1,
        ) + ", rating "@ + ", id "@ + with_id_filter(*list).skip(k - 1),
{
    if list.mode == ListMode::User {
        return list.query.clone();
    }
    let mut ids = String::new();
    let mut i: usize = 0;
    let ghost all = list.items@.map_values(|i: crate::topbops::ItemMetadata| i.id@);
    while i < list.items.len()
        invariant
            i <= list.items@.len(),
            all == list.items@.map_values(|i: crate::topbops::ItemMetadata| i.id@),
            ids@ == quoted_ids(all.take(i as int)),
        decreases list.items.len() - i,
    {
        let ghost before = ids@;
        proof {
            assert(all.take(i + 1).drop_last() =~= all.take(i as int));
        }
        if i > 0 {
            ids.append(",");
        }
        let q = quote_double(list.items[i].id.as_str());
        ids.append(q.as_str());
        proof {
            if i == 0 {
                assert(ids@ =~= double_quoted(all[0]));
            } else {
                assert(ids@ =~= before + ","@ + double_quoted(all[i as int]));
            }
        }
        i = i + 1;
    }
    assert(all.take(list.items@.len() as int) =~= all);
    let text = list.query.clone().concat(" WHERE c.id IN (").concat(ids.as_str()).concat(")");
    assert(text@ == with_id_filter(*list));
    let k = find_text(text.as_str(), "FROM").unwrap();
    proof {
        assert forall|j: int| list_query_insertable(*list, j) implies j == k by {
            lemma_first_occurrence_unique(text@, "FROM"@, k as int, j);
        }
        let w = choose|w: int| list_query_insertable(*list, w);
        assert(w == k);
    }
    let n = text.as_str().unicode_len();
    let before = text.as_str().substring_char(0, k - 1);
    let after = text.as_str().substring_char(k - 1, n);
    String::from_str(before).concat(", rating ").concat(", id ").concat(after)
}

/// Whether `model` is a rewriting of the query `m0` (see `is_rewritten_query`) for some
/// user.
pub open spec fn rewritten_from(m0: SqlQuery, model: SqlQuery) -> bool {
    exists|u: Seq<char>, names: Seq<String>| #[trigger] is_rewritten_query(m0, u, model, names)
}

/// Whether `t` is the text that sqlparser prints for `text`'s query rewritten from its
/// model `m` for `user_id` (see `is_rewritten_query`), with the column names `names`.
pub open spec fn is_printed_rewrite(text: Seq<char>, m: SqlQuery, user_id: Seq<char>, t: Seq<char>, names: Seq<String>) -> bool {
    exists|q2: SqlQuery| #[trigger] is_rewritten_query(m, user_id, q2, names) && t == sql_printed_query(
        SqlDialect::Generic,
        text,
        q2,
    )
}

/// Reads a list's query in the generic dialect and rewrites it over the collection `c`
/// for the user (see `rewrite_query`): the text that runs, printed by sqlparser from the
/// rewritten model, and the column names; the error of a text that holds no query, or
/// of the rewriting.
pub fn rewrite_query_text(text: &str, user_id: &UserId) -> (r: Result<(String, Vec<String>), Error>)
    requires
        !sql_parse_may_panic(SqlDialect::Generic, text@),
        sql_query_model(SqlDialect::Generic, text@) matches Some(m) ==> from_is_named_table(m),
    ensures
        match sql_parse_outcome(SqlDialect::Generic, text@) {
            SqlParseOutcome::Refused(e) => r matches Err(Error::SqlError(m)) && m@ == parse_error_message(e),
            SqlParseOutcome::NoQuery => r matches Err(Error::SqlError(m)) && m@ == "No query was provided"@,
            SqlParseOutcome::Query => sql_query_model(SqlDialect::Generic, text@) matches Some(m) && match r {
                Ok((t, names)) => rewrite_error(m) is None && is_printed_rewrite(text@, m, user_id.0@, t@, names@),
                Err(Error::SqlError(msg)) => rewrite_error(m) == Some(msg@),
            },
        },
{
    let (_, model) = match parse_select(text) {
        Ok(x) => x,
        Err(e) => return Err(e),
    };
    let ghost m = model;
    match rewrite_query(model, user_id) {
        Ok((q2, names)) => {
            proof {
                assert(is_rewritten_query(m, user_id.0@, q2, names@));
                assert(rewritten_from(m, q2));
            }
            let ghost g = q2;
            let t = print_query(SqlDialect::Generic, text, q2);
            proof {
                assert(is_rewritten_query(m, user_id.0@, g, names@));
            }
            Ok((t, names))
        },
        Err(e) => Err(e),
    }
}

/// The model of the query that a list's text holds, read in the generic dialect (see
/// `sql_query_model`); sqlparser's message, or `No query was provided` where the
/// text's last statement is no query, as an error of the query.
pub fn parse_select(text: &str) -> (r: Result<(sqlparser::ast::Query, SqlQuery), Error>)
    requires
        !sql_parse_may_panic(SqlDialect::Generic, text@),
    ensures
        match sql_parse_outcome(SqlDialect::Generic, text@) {
            SqlParseOutcome::Refused(e) => r matches Err(Error::SqlError(m)) && m@ == parse_error_message(e),
            SqlParseOutcome::NoQuery => r matches Err(Error::SqlError(m)) && m@ == "No query was provided"@,
            SqlParseOutcome::Query => r matches Ok((_, m)) && sql_query_model(SqlDialect::Generic, text@) == Some(m),
        },
{
    match parse_query(SqlDialect::Generic, text) {
        Ok(q) => Ok(q),
        Err(m) => Err(Error::SqlError(m)),
    }
}

} // verus!
