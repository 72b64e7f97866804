use crate::sql::{
    SqlBinOp, SqlDialect, SqlExpr, SqlFunctionArg, SqlIdent, SqlQuery, SqlSelect, SqlSelectEntry, SqlSelectItem,
    SqlTable, and, double_quoted, is_equality, parse_query, plain_ident, plain_identifier, print_query, quote_double,
    sql_parse_may_panic, sql_printed_query, sql_query_model,
};
use crate::text::{before_first, str_eq};
use vstd::prelude::*;

verus! {

/// Whether `e` is what an identifier becomes: `c.score` for the score, and
/// `c.metadata.<name>` for anything else, the identifier kept as the last part.
pub open spec fn is_replaced_identifier(id: SqlIdent, e: SqlExpr) -> bool {
    e matches SqlExpr::CompoundIdentifier(ids) && if id.value@ == "score"@ {
        ids@.len() == 2 && ids@[0].value@ == "c"@ && ids@[0].quote_style is None && ids@[1] == id
    } else {
        ids@.len() == 3 && ids@[0].value@ == "c"@ && ids@[0].quote_style is None && ids@[1].value@ == "metadata"@
            && ids@[1].quote_style is None && ids@[2] == id
    }
}

/// What an identifier becomes (see `is_replaced_identifier`).
pub fn replace_identifier(id: SqlIdent) -> (r: SqlExpr)
    ensures
        is_replaced_identifier(id, r),
{
    let mut parts: Vec<SqlIdent> = Vec::new();
    parts.push(plain_ident(String::from_str("c")));
    if !str_eq(id.value.as_str(), "score") {
        parts.push(plain_ident(String::from_str("metadata")));
    }
    parts.push(id);
    SqlExpr::CompoundIdentifier(parts)
}

/// Whether `a` is what the WHERE expression `b` becomes: identifiers are replaced
/// through binary operators; everything else stays.
pub open spec fn replaces_to(b: SqlExpr, a: SqlExpr) -> bool
    decreases b,
{
    match b {
        SqlExpr::Identifier(id) => is_replaced_identifier(id, a),
        SqlExpr::BinaryOp(l, op, r) => a matches SqlExpr::BinaryOp(l2, op2, r2) && op2 == op && replaces_to(*l, *l2)
            && replaces_to(*r, *r2),
        _ => a == b,
    }
}

/// Replaces the identifiers of a WHERE expression (see `replaces_to`).
fn replace_in_selection(e: SqlExpr) -> (r: SqlExpr)
    ensures
        replaces_to(e, r),
    decreases e,
{
    match e {
        SqlExpr::Identifier(id) => replace_identifier(id),
        SqlExpr::BinaryOp(l, op, r) => {
            let l2 = replace_in_selection(*l);
            let r2 = replace_in_selection(*r);
            SqlExpr::BinaryOp(Box::new(l2), op, Box::new(r2))
        },
        other => other,
    }
}

/// Whether a SELECT item can be transformed: a bare identifier, or a call whose last
/// argument is a bare identifier.
pub open spec fn item_transformable(item: SqlSelectItem) -> bool {
    match item {
        SqlSelectItem::Unnamed(SqlExpr::Identifier(_)) => true,
        SqlSelectItem::Unnamed(SqlExpr::Function(_, args)) => args@.len() > 0 && args@.last() matches SqlFunctionArg::Unnamed(
            SqlExpr::Identifier(_),
        ),
        _ => false,
    }
}

/// Whether the item `a` is what `b` becomes: a bare identifier is replaced, and so is
/// the last argument of a call.
pub open spec fn item_transforms_to(b: SqlSelectItem, a: SqlSelectItem) -> bool {
    match b {
        SqlSelectItem::Unnamed(SqlExpr::Identifier(id)) => a matches SqlSelectItem::Unnamed(e) && is_replaced_identifier(id, e),
        SqlSelectItem::Unnamed(SqlExpr::Function(f, args)) => a matches SqlSelectItem::Unnamed(SqlExpr::Function(f2, args2))
            && f2 == f && args2@.len() == args@.len() && (forall|i: int| 0 <= i < args@.len() - 1 ==> #[trigger] args2@[i] == args@[i])
            && match args@.last() {
            SqlFunctionArg::Unnamed(SqlExpr::Identifier(id)) => args2@.last() matches SqlFunctionArg::Unnamed(e)
                && is_replaced_identifier(id, e),
            _ => false,
        },
        _ => false,
    }
}

/// Whether a SELECT can be transformed: its first table is a named one whose name
/// ends in a one-byte character, its items can be transformed and it groups by bare
/// identifiers only.
pub open spec fn transformable(query: SqlSelect) -> bool {
    &&& query.from matches Some(SqlTable::Named(name, _)) && name@.len() > 0 && (name@.last() as u32) < 128
    &&& forall|i: int| 0 <= i < query.projection@.len() ==> item_transformable(#[trigger] query.projection@[i].item)
    &&& forall|i: int| 0 <= i < query.group_by@.len() ==> #[trigger] query.group_by@[i] is Identifier
}

/// Whether `sel` is the transformed WHERE: `c.user_id = "<user>" AND (c.type = "<type>"`,
/// with `AND` and the old WHERE, identifiers replaced, where there is one`)`.
pub open spec fn is_transformed_selection(old_sel: Option<SqlExpr>, sel: SqlExpr, user_id: Seq<char>, item_type: Seq<char>) -> bool {
    sel matches SqlExpr::BinaryOp(l, op, r) && op == SqlBinOp::And && is_equality(
        *l,
        seq!["c"@, "user_id"@],
        double_quoted(user_id),
    ) && match old_sel {
        None => is_equality(*r, seq!["c"@, "type"@], double_quoted(item_type)),
        Some(s) => *r matches SqlExpr::BinaryOp(t, op2, s2) && op2 == SqlBinOp::And && is_equality(
            *t,
            seq!["c"@, "type"@],
            double_quoted(item_type),
        ) && replaces_to(s, *s2),
    }
}

/// `c.<field> = "<value>"`.
fn c_equality(field: &str, value: &str) -> (r: SqlExpr)
    ensures
        is_equality(r, seq!["c"@, field@], double_quoted(value@)),
{
    let mut parts: Vec<SqlIdent> = Vec::new();
    parts.push(plain_ident(String::from_str("c")));
    parts.push(plain_ident(String::from_str(field)));
    SqlExpr::BinaryOp(
        Box::new(SqlExpr::CompoundIdentifier(parts)),
        SqlBinOp::Eq,
        Box::new(plain_identifier(quote_double(value))),
    )
}

/// Whether `q2` is the SELECT that `q` is transformed into for `user_id` (see
/// `transform_query`): it reads the collection `c`, its items and GROUP BY are
/// transformed in place, and its WHERE is the transformed one.
pub open spec fn is_transformed(q: SqlSelect, q2: SqlSelect, user_id: Seq<char>) -> bool {
    q.from matches Some(SqlTable::Named(name, alias)) && {
        &&& q2.from matches Some(SqlTable::Named(c, alias2)) && c@ == "c"@ && alias2 == alias
        &&& q2.projection@.len() == q.projection@.len()
        &&& forall|i: int| 0 <= i < q.projection@.len() ==> {
            &&& #[trigger] q2.projection@[i].text == q.projection@[i].text
            &&& item_transforms_to(q.projection@[i].item, q2.projection@[i].item)
        }
        &&& q2.selection matches Some(sel) && is_transformed_selection(
            q.selection,
            sel,
            user_id,
            name@.drop_last(),
        )
        &&& q2.group_by@.len() == q.group_by@.len()
        &&& forall|i: int| 0 <= i < q.group_by@.len() ==> (q.group_by@[i] matches SqlExpr::Identifier(id)
            && is_replaced_identifier(id, #[trigger] q2.group_by@[i]))
    }
}

/// Whether `model` is a query whose SELECT is a transformation of that of `m0` for some
/// user, its ORDER BY that of `m0`.
pub open spec fn transformed_from(m0: SqlQuery, model: SqlQuery) -> bool {
    m0.select matches Some(s) && model.select matches Some(s2) && model.order_by == m0.order_by && exists|
        u: Seq<char>,
    | #[trigger] is_transformed(s, s2, u)
}

/// Transforms a SELECT over a table of items into one over the collection `c`, kept to
/// the user's items of the type that the table names (its name without the last
/// character); the names of the SELECT list, the WHERE and the GROUP BY become
/// `c.score` or fields of `c.metadata`.
pub fn transform_query(query: &mut SqlSelect, user_id: &str)
    requires
        transformable(*old(query)),
    ensures
        is_transformed(*old(query), *final(query), user_id@),
{
    let ghost q = *old(query);
    let mut from: Option<SqlTable> = None;
    std::mem::swap(&mut from, &mut query.from);
    let (table, alias) = match from {
        Some(SqlTable::Named(name, alias)) => (name, alias),
        _ => (String::new(), false),
    };
    query.from = Some(SqlTable::Named(String::from_str("c"), alias));
    let len = table.as_str().unicode_len();
    let item_type = table.as_str().substring_char(0, len - 1);

    let mut items: Vec<SqlSelectEntry> = Vec::new();
    std::mem::swap(&mut items, &mut query.projection);
    let ghost orig = items@;
    let n = items.len();
    let mut out: Vec<SqlSelectEntry> = Vec::new();
    let mut i: usize = 0;
    while i < n
        invariant
            n == orig.len(),
            orig == q.projection@,
            transformable(q),
            i <= n,
            items@ == orig.subrange(i as int, n as int),
            out@.len() == i,
            forall|j: int| 0 <= j < i ==> {
                &&& #[trigger] out@[j].text == orig[j].text
                &&& item_transforms_to(orig[j].item, out@[j].item)
            },
        decreases n - i,
    {
        let entry = items.remove(0);
        assert(entry == orig[i as int]);
        assert(item_transformable(orig[i as int].item));
        let SqlSelectEntry { text, item } = entry;
        let new_item = match item {
            SqlSelectItem::Unnamed(SqlExpr::Identifier(id)) => SqlSelectItem::Unnamed(replace_identifier(id)),
            SqlSelectItem::Unnamed(SqlExpr::Function(f, args)) => {
                let ghost before = args@;
                let mut args = args;
                let last = args.pop().unwrap();
                let replaced = match last {
                    SqlFunctionArg::Unnamed(SqlExpr::Identifier(id)) => SqlFunctionArg::Unnamed(replace_identifier(id)),
                    other => other,
                };
                args.push(replaced);
                assert forall|k: int| 0 <= k < before.len() - 1 implies #[trigger] args@[k] == before[k] by {}
                SqlSelectItem::Unnamed(SqlExpr::Function(f, args))
            },
            other => other,
        };
        out.push(SqlSelectEntry { text, item: new_item });
        i = i + 1;
        assert(items@ =~= orig.subrange(i as int, n as int));
    }
    query.projection = out;

    let user_condition = c_equality("user_id", user_id);
    let type_condition = c_equality("type", item_type);
    let mut selection: Option<SqlExpr> = None;
    std::mem::swap(&mut selection, &mut query.selection);
    let rest = match selection {
        Some(s) => and(type_condition, replace_in_selection(s)),
        None => type_condition,
    };
    query.selection = Some(and(user_condition, rest));

    let mut groups: Vec<SqlExpr> = Vec::new();
    std::mem::swap(&mut groups, &mut query.group_by);
    let ghost gorig = groups@;
    let m = groups.len();
    let mut gout: Vec<SqlExpr> = Vec::new();
    let mut k: usize = 0;
    while k < m
        invariant
            m == gorig.len(),
            gorig == q.group_by@,
            transformable(q),
            k <= m,
            groups@ == gorig.subrange(k as int, m as int),
            gout@.len() == k,
            forall|j: int| 0 <= j < k ==> (gorig[j] matches SqlExpr::Identifier(id) && is_replaced_identifier(
                id,
                #[trigger] gout@[j],
            )),
        decreases m - k,
    {
        let g = groups.remove(0);
        assert(g == gorig[k as int]);
        assert(gorig[k as int] is Identifier);
        let replaced = match g {
            SqlExpr::Identifier(id) => replace_identifier(id),
            other => other,
        };
        gout.push(replaced);
        k = k + 1;
        assert(groups@ =~= gorig.subrange(k as int, m as int));
    }
    query.group_by = gout;
}

/// What the server does with a request before it signs the user in.
#[derive(Debug, PartialEq, Eq)]
pub enum RouteDecision {
    /// Not under `/api/`: nothing is there.
    NotFound,
    /// A preflight request: allowed.
    Options,
    /// No `Authorization` header.
    Unauthorized,
    /// An `Authorization` header without a space.
    BadRequest,
    /// The demo user, who may do nothing here.
    Demo,
    /// Sign in with this code, then serve the path under `/api/`.
    Login(String, String),
}

/// Whether `s` starts with `prefix`.
pub open spec fn starts_with(s: Seq<char>, prefix: Seq<char>) -> bool {
    prefix.len() <= s.len() && s.take(prefix.len() as int) == prefix
}

/// Decides a request up to signing in (see `RouteDecision`); for a sign-in it gives
/// the code and the path after `/api/`.
pub fn route_request(path: &str, is_options: bool, auth: Option<&str>) -> (r: RouteDecision)
    ensures
        !starts_with(path@, "/api/"@) ==> r == RouteDecision::NotFound,
        starts_with(path@, "/api/"@) ==> match auth {
            _ if is_options => r == RouteDecision::Options,
            None => r == RouteDecision::Unauthorized,
            Some(a) => if !a@.contains(' ') {
                r == RouteDecision::BadRequest
            } else {
                let code = a@.skip(before_first(a@, ' ').len() as int + 1);
                if code == "demo"@ {
                    r == RouteDecision::Demo
                } else {
                    r matches RouteDecision::Login(c, rest) && c@ == code && rest@ == path@.skip(5)
                }
            },
        },
{
    let n = path.unicode_len();
    if n < 5 || !str_eq(path.substring_char(0, 5), "/api/") {
        proof {
            reveal_strlit("/api/");
        }
        return RouteDecision::NotFound;
    }
    proof {
        reveal_strlit("/api/");
    }
    let rest = path.substring_char(5, n);
    if is_options {
        return RouteDecision::Options;
    }
    let header = match auth {
        Some(a) => a,
        None => return RouteDecision::Unauthorized,
    };
    match crate::text::split_once(header, ' ') {
        None => RouteDecision::BadRequest,
        Some((_, code)) => {
            assert(code@ == header@.skip(before_first(header@, ' ').len() as int + 1));
            if str_eq(code, "demo") {
                RouteDecision::Demo
            } else {
                RouteDecision::Login(String::from_str(code), String::from_str(rest))
            }
        },
    }
}

/// The status of a signed-in request to the path after `/api/`: a POST to `login` is
/// answered with 200, anything else with 405.
pub fn signed_in_status(rest: &str, is_post: bool) -> (r: u16)
    ensures
        r == if rest@ == "login"@ && is_post { 200u16 } else { 405u16 },
{
    if is_post && str_eq(rest, "login") {
        200
    } else {
        405
    }
}

/// The head of an answer: its status, and whether it allows another origin to send
/// an `Authorization` header and the methods GET, POST and DELETE. Every answer
/// allows any origin.
#[derive(Clone, Copy, Debug, PartialEq, Eq, Structural)]
pub struct ResponseHead {
    pub status: u16,
    pub allow_headers: bool,
    pub allow_methods: bool,
}

/// The answer's head for a decision (see `route_request`); for a sign-in, whether the
/// sign-in succeeded and whether the request is a POST.
pub fn route_status(d: &RouteDecision, signed_in: bool, is_post: bool) -> (r: ResponseHead)
    ensures
        match d {
            RouteDecision::NotFound => r == (ResponseHead { status: 404, allow_headers: true, allow_methods: false }),
            RouteDecision::Options => r == (ResponseHead { status: 200, allow_headers: true, allow_methods: true }),
            RouteDecision::Unauthorized => r == (ResponseHead { status: 401, allow_headers: false, allow_methods: false }),
            RouteDecision::BadRequest => r == (ResponseHead { status: 400, allow_headers: false, allow_methods: false }),
            RouteDecision::Demo => r == (ResponseHead { status: 405, allow_headers: false, allow_methods: false }),
            RouteDecision::Login(_, rest) => if !signed_in {
                r == (ResponseHead { status: 401, allow_headers: false, allow_methods: false })
            } else if rest@ == "login"@ && is_post {
                r == (ResponseHead { status: 200, allow_headers: true, allow_methods: false })
            } else {
                r == (ResponseHead { status: 405, allow_headers: false, allow_methods: false })
            },
        },
{
    match d {
        RouteDecision::NotFound => ResponseHead { status: 404, allow_headers: true, allow_methods: false },
        RouteDecision::Options => ResponseHead { status: 200, allow_headers: true, allow_methods: true },
        RouteDecision::Unauthorized => ResponseHead { status: 401, allow_headers: false, allow_methods: false },
        RouteDecision::BadRequest => ResponseHead { status: 400, allow_headers: false, allow_methods: false },
        RouteDecision::Demo => ResponseHead { status: 405, allow_headers: false, allow_methods: false },
        RouteDecision::Login(_, rest) => if !signed_in {
            ResponseHead { status: 401, allow_headers: false, allow_methods: false }
        } else {
            let status = signed_in_status(rest.as_str(), is_post);
            ResponseHead { status, allow_headers: status == 200, allow_methods: false }
        },
    }
}

/// Reads a SELECT in the generic dialect and transforms it for the user (see
/// `transform_query`): the text that runs, printed by sqlparser from the transformed
/// model.
pub fn transform_select_text(text: &str, user_id: &str) -> (r: String)
    requires
        !sql_parse_may_panic(SqlDialect::Generic, text@),
        sql_query_model(SqlDialect::Generic, text@) matches Some(m) && m.select matches Some(sel) && transformable(sel),
    ensures
        sql_query_model(SqlDialect::Generic, text@) matches Some(m) && m.select matches Some(sel) && exists|
            sel2: SqlSelect,
        | #[trigger] is_transformed(sel, sel2, user_id@) && r@ == sql_printed_query(
            SqlDialect::Generic,
            text@,
            SqlQuery { select: Some(sel2), order_by: m.order_by },
        ),
{
    let model = match parse_query(SqlDialect::Generic, text) {
        Ok((_, m)) => m,
        Err(_) => return String::new(),
    };
    let SqlQuery { select, order_by } = model;
    let mut sel = match select {
        Some(s) => s,
        None => return String::new(),
    };
    let ghost old_sel = sel;
    transform_query(&mut sel, user_id);
    let ghost new_sel = sel;
    let printed = SqlQuery { select: Some(sel), order_by };
    proof {
        assert(is_transformed(old_sel, new_sel, user_id@));
    }
    print_query(SqlDialect::Generic, text, printed)
}

} // verus!
