use sqlparser::ast::{
    BinaryOperator, Expr, Function, FunctionArg, FunctionArgExpr, Ident, JsonOperator, Query, Select, SelectItem,
    SetExpr, Statement, TableFactor, TableWithJoins,
};
use sqlparser::dialect::{GenericDialect, MySqlDialect};
use sqlparser::keywords::Keyword;
use sqlparser::parser::{Parser, ParserError};
use sqlparser::tokenizer::{Token, Tokenizer, Word};
use vstd::prelude::*;

verus! {

/// A query of sqlparser's syntax tree, as the parser gave it.
#[verifier::external_type_specification]
#[verifier::external_body]
pub struct ExSqlparserQuery(sqlparser::ast::Query);

/// An expression of sqlparser's syntax tree that the rewriting carries through.
#[verifier::external_type_specification]
#[verifier::external_body]
pub struct ExSqlparserExpr(sqlparser::ast::Expr);

/// A binary operator of sqlparser other than `=` and `AND`, carried through.
#[verifier::external_type_specification]
#[verifier::external_body]
pub struct ExSqlparserBinaryOperator(sqlparser::ast::BinaryOperator);

/// A function call of sqlparser (name, window, flags), its arguments held apart.
#[verifier::external_type_specification]
#[verifier::external_body]
pub struct ExSqlparserFunction(sqlparser::ast::Function);

/// A function argument of sqlparser that is not a plain unnamed expression.
#[verifier::external_type_specification]
#[verifier::external_body]
pub struct ExSqlparserFunctionArg(sqlparser::ast::FunctionArg);

/// An identifier of sqlparser's syntax tree, read into the model.
#[verifier::external_type_specification]
#[verifier::external_body]
pub struct ExSqlparserIdent(sqlparser::ast::Ident);

/// A SELECT of sqlparser's syntax tree, read into the model.
#[verifier::external_type_specification]
#[verifier::external_body]
pub struct ExSqlparserSelect(sqlparser::ast::Select);

/// An item of a SELECT list of sqlparser's syntax tree, read into the model.
#[verifier::external_type_specification]
#[verifier::external_body]
pub struct ExSqlparserSelectItem(sqlparser::ast::SelectItem);

/// A table of a FROM of sqlparser's syntax tree, read into the model.
#[verifier::external_type_specification]
#[verifier::external_body]
pub struct ExSqlparserTableWithJoins(sqlparser::ast::TableWithJoins);

/// An identifier: its text without quotes, and the quote that opened it, if any.
#[derive(Debug, PartialEq, Eq)]
pub struct SqlIdent {
    pub value: String,
    pub quote_style: Option<char>,
}

/// The binary operators that the rewriting builds, and the others carried through.
#[derive(Debug, PartialEq)]
pub enum SqlBinOp {
    Eq,
    And,
    Other(sqlparser::ast::BinaryOperator),
}

/// The expressions of a query that the rewriting reads or builds; any other
/// expression is carried through as sqlparser gave it.
#[derive(Debug, PartialEq)]
pub enum SqlExpr {
    Identifier(SqlIdent),
    CompoundIdentifier(Vec<SqlIdent>),
    BinaryOp(Box<SqlExpr>, SqlBinOp, Box<SqlExpr>),
    /// `expr [NOT] IN (list)`, with `negated` for `NOT`.
    InList(Box<SqlExpr>, Vec<SqlExpr>, bool),
    /// A function call, with its arguments in order.
    Function(sqlparser::ast::Function, Vec<SqlFunctionArg>),
    /// `left -> right`, a JSON field of `left`.
    JsonArrow(Box<SqlExpr>, Box<SqlExpr>),
    Other(sqlparser::ast::Expr),
}

/// A function argument: an unnamed expression, or another kind carried through.
#[derive(Debug, PartialEq)]
pub enum SqlFunctionArg {
    Unnamed(SqlExpr),
    Other(sqlparser::ast::FunctionArg),
}

/// What an item of the SELECT list is.
#[derive(Debug, PartialEq)]
pub enum SqlSelectItem {
    Unnamed(SqlExpr),
    WithAlias,
    Wildcard,
}

/// An item of the SELECT list, with the text it was written as.
#[derive(Debug, PartialEq)]
pub struct SqlSelectEntry {
    pub text: String,
    pub item: SqlSelectItem,
}

/// The first table of the FROM clause: a named table (the first part of its name,
/// and whether it has an alias) or something else.
#[derive(Debug, PartialEq, Eq)]
pub enum SqlTable {
    Named(String, bool),
    Other,
}

/// A SELECT: its list, its first table, its WHERE and its GROUP BY.
#[derive(Debug, PartialEq)]
pub struct SqlSelect {
    pub projection: Vec<SqlSelectEntry>,
    pub from: Option<SqlTable>,
    pub selection: Option<SqlExpr>,
    pub group_by: Vec<SqlExpr>,
}

/// A query: its body where that is a SELECT, and the expressions of its ORDER BY.
#[derive(Debug, PartialEq)]
pub struct SqlQuery {
    pub select: Option<SqlSelect>,
    pub order_by: Vec<SqlExpr>,
}

/// Whether `e` is the bare identifier `value`.
pub open spec fn is_plain_identifier(e: SqlExpr, value: Seq<char>) -> bool {
    e matches SqlExpr::Identifier(id) && id.value@ == value && id.quote_style is None
}

/// Whether `e` is the compound identifier whose parts are `parts`, none quoted.
pub open spec fn is_plain_compound(e: SqlExpr, parts: Seq<Seq<char>>) -> bool {
    e matches SqlExpr::CompoundIdentifier(ids) && ids@.len() == parts.len() && forall|i: int|
        0 <= i < parts.len() ==> #[trigger] ids@[i].value@ == parts[i] && ids@[i].quote_style is None
}

/// Whether `e` is `left = right`, where `left` has the parts `parts` and `right` is
/// the bare identifier `value`.
pub open spec fn is_equality(e: SqlExpr, parts: Seq<Seq<char>>, value: Seq<char>) -> bool {
    e matches SqlExpr::BinaryOp(l, op, r) && op == SqlBinOp::Eq && is_plain_compound(*l, parts)
        && is_plain_identifier(*r, value)
}

/// A text in double quotes.
pub open spec fn double_quoted(s: Seq<char>) -> Seq<char> {
    "\""@ + s + "\""@
}

/// An identifier without quotes.
pub fn plain_ident(value: String) -> (r: SqlIdent)
    ensures
        r.value == value,
        r.quote_style is None,
{
    SqlIdent { value, quote_style: None }
}

/// The bare identifier `value`.
pub fn plain_identifier(value: String) -> (r: SqlExpr)
    ensures
        is_plain_identifier(r, value@),
{
    SqlExpr::Identifier(plain_ident(value))
}

/// `left AND right`.
pub fn and(left: SqlExpr, right: SqlExpr) -> (r: SqlExpr)
    ensures
        r == SqlExpr::BinaryOp(Box::new(left), SqlBinOp::And, Box::new(right)),
{
    SqlExpr::BinaryOp(Box::new(left), SqlBinOp::And, Box::new(right))
}

/// The text `s` in double quotes.
pub fn quote_double(s: &str) -> (r: String)
    ensures
        r@ == double_quoted(s@),
{
    String::from_str("\"").concat(s).concat("\"")
}

/// The SQL dialects that query texts are read in.
#[derive(Clone, Copy, Debug, PartialEq, Eq, Structural)]
pub enum SqlDialect {
    Generic,
    MySql,
}

/// Why sqlparser refused a text: its tokenizer's or its parser's message, or a
/// nesting deeper than it follows.
#[derive(Clone, Debug, PartialEq, Eq)]
pub enum SqlParseError {
    Tokenizer(String),
    Parser(String),
    RecursionLimit,
}

/// What sqlparser makes of a text: a refusal, statements of which the last is no
/// query (or none at all), or a last statement that is a query.
#[derive(Clone, Debug, PartialEq, Eq)]
pub enum SqlParseOutcome {
    Refused(SqlParseError),
    NoQuery,
    Query,
}

/// What a token of a text is, as far as the check for a missing grantor tells them
/// apart: the keywords GRANTED and BY, a name (a word or a quoted text), white space or
/// a comment, or anything else.
#[derive(Clone, Copy, Debug, PartialEq, Eq, Structural)]
pub enum SqlTokenKind {
    Granted,
    By,
    Name,
    Space,
    Other,
}

/// The kinds of the tokens that sqlparser's tokenizer reads from `text` in the
/// dialect, in order; none where it refuses the text.
pub uninterp spec fn sql_token_kinds(dialect: SqlDialect, text: Seq<char>) -> Option<Seq<SqlTokenKind>>;

/// `Tokenizer::tokenize` in the dialect, each token told apart as `SqlTokenKind` says.
/// Trusted to give what `sql_token_kinds` names.
#[verifier::external_body]
fn token_kinds(dialect: SqlDialect, text: &str) -> (r: Option<Vec<SqlTokenKind>>)
    ensures
        match r {
            Some(v) => sql_token_kinds(dialect, text@) == Some(v@),
            None => sql_token_kinds(dialect, text@) is None,
        },
{
    let tokens = match dialect {
        SqlDialect::Generic => Tokenizer::new(&GenericDialect {}, text).tokenize(),
        SqlDialect::MySql => Tokenizer::new(&MySqlDialect {}, text).tokenize(),
    };
    tokens.ok().map(|ts| ts.into_iter().map(|t| match t {
        Token::Word(Word { keyword: Keyword::GRANTED, .. }) => SqlTokenKind::Granted,
        Token::Word(Word { keyword: Keyword::BY, .. }) => SqlTokenKind::By,
        Token::Word(_) | Token::SingleQuotedString(_) | Token::DoubleQuotedString(_) => SqlTokenKind::Name,
        Token::Whitespace(_) => SqlTokenKind::Space,
        _ => SqlTokenKind::Other,
    }).collect())
}

/// The tokens that are not white space, in order: those that the parser reads.
pub open spec fn solid_tokens(s: Seq<SqlTokenKind>) -> Seq<SqlTokenKind>
    decreases s.len(),
{
    if s.len() == 0 {
        Seq::empty()
    } else if s.last() == SqlTokenKind::Space {
        solid_tokens(s.drop_last())
    } else {
        solid_tokens(s.drop_last()).push(s.last())
    }
}

/// Whether the keywords GRANTED BY stand at `i` without a name after them.
pub open spec fn grantor_missing_at(s: Seq<SqlTokenKind>, i: int) -> bool {
    &&& 0 <= i
    &&& i + 1 < s.len()
    &&& s[i] == SqlTokenKind::Granted
    &&& s[i + 1] == SqlTokenKind::By
    &&& (i + 2 == s.len() || s[i + 2] != SqlTokenKind::Name)
}

/// Whether sqlparser's parser may panic on `text`: it does on a GRANT or REVOKE that
/// ends in GRANTED BY without a name after it, as it unwraps the grantor's name. The
/// check looks for such keywords anywhere in the text, not only where a GRANT or
/// REVOKE would read them, so it also holds of a few texts that the parser would
/// refuse or read without panicking; such texts are left out all the same.
pub open spec fn sql_parse_may_panic(dialect: SqlDialect, text: Seq<char>) -> bool {
    match sql_token_kinds(dialect, text) {
        Some(kinds) => grantor_missing(solid_tokens(kinds)),
        None => false,
    }
}

/// Whether the keywords GRANTED BY stand somewhere without a name after them.
pub open spec fn grantor_missing(s: Seq<SqlTokenKind>) -> bool {
    exists|i: int| #[trigger] grantor_missing_at(s, i)
}

/// Whether sqlparser's parser may panic on `text` (see `sql_parse_may_panic`); the
/// texts to test before reading a query.
pub fn parse_may_panic(dialect: SqlDialect, text: &str) -> (r: bool)
    ensures
        r == sql_parse_may_panic(dialect, text@),
{
    let kinds = match token_kinds(dialect, text) {
        Some(k) => k,
        None => return false,
    };
    let mut solid: Vec<SqlTokenKind> = Vec::new();
    let mut i: usize = 0;
    while i < kinds.len()
        invariant
            i <= kinds@.len(),
            solid@ == solid_tokens(kinds@.take(i as int)),
            sql_token_kinds(dialect, text@) == Some(kinds@),
        decreases kinds.len() - i,
    {
        proof {
            assert(kinds@.take(i as int + 1).drop_last() =~= kinds@.take(i as int));
        }
        if kinds[i] != SqlTokenKind::Space {
            solid.push(kinds[i]);
        }
        i = i + 1;
    }
    proof {
        assert(kinds@.take(kinds@.len() as int) =~= kinds@);
        assert(solid@ == solid_tokens(kinds@));
    }
    let n = solid.len();
    let mut j: usize = 0;
    while j < n
        invariant
            j <= n,
            n == solid@.len(),
            solid@ == solid_tokens(kinds@),
            sql_token_kinds(dialect, text@) == Some(kinds@),
            forall|x: int| 0 <= x < j ==> !#[trigger] grantor_missing_at(solid@, x),
        decreases n - j,
    {
        if j + 1 < n && solid[j] == SqlTokenKind::Granted && solid[j + 1] == SqlTokenKind::By && (j + 2 == n
            || solid[j + 2] != SqlTokenKind::Name) {
            assert(grantor_missing_at(solid@, j as int));
            assert(grantor_missing(solid@));
            return true;
        }
        j = j + 1;
    }
    false
}

/// Part of reading sqlparser's tree into the model: an identifier.
#[verifier::external_body]
fn ident_model(id: Ident) -> SqlIdent {
    SqlIdent { value: id.value, quote_style: id.quote_style }
}

/// Part of reading sqlparser's tree into the model: a binary operator.
#[verifier::external_body]
fn op_model(op: BinaryOperator) -> SqlBinOp {
    match op {
        BinaryOperator::Eq => SqlBinOp::Eq,
        BinaryOperator::And => SqlBinOp::And,
        other => SqlBinOp::Other(other),
    }
}

/// Part of reading sqlparser's tree into the model: a function argument.
#[verifier::external_body]
fn arg_model(a: FunctionArg) -> SqlFunctionArg {
    match a {
        FunctionArg::Unnamed(FunctionArgExpr::Expr(e)) => SqlFunctionArg::Unnamed(expr_model(e)),
        other => SqlFunctionArg::Other(other),
    }
}

/// Part of reading sqlparser's tree into the model: a function call, its arguments
/// held apart.
#[verifier::external_body]
fn function_model(mut f: Function) -> SqlExpr {
    let args = std::mem::take(&mut f.args);
    SqlExpr::Function(f, args.into_iter().map(arg_model).collect())
}

/// Part of reading sqlparser's tree into the model: an expression, each kind that
/// `SqlExpr` names with its parts read in turn, any other kind as it is.
#[verifier::external_body]
fn expr_model(e: Expr) -> SqlExpr {
    match e {
        Expr::Identifier(id) => SqlExpr::Identifier(ident_model(id)),
        Expr::CompoundIdentifier(ids) => SqlExpr::CompoundIdentifier(ids.into_iter().map(ident_model).collect()),
        Expr::BinaryOp { left, op, right } => binary_model(*left, op, *right),
        Expr::InList { expr, list, negated } => {
            SqlExpr::InList(Box::new(expr_model(*expr)), list.into_iter().map(expr_model).collect(), negated)
        },
        Expr::Function(f) => function_model(f),
        Expr::JsonAccess { left, operator: JsonOperator::Arrow, right } => {
            SqlExpr::JsonArrow(Box::new(expr_model(*left)), Box::new(expr_model(*right)))
        },
        other => SqlExpr::Other(other),
    }
}

/// Part of reading sqlparser's tree into the model: a binary operation.
#[verifier::external_body]
fn binary_model(left: Expr, op: BinaryOperator, right: Expr) -> SqlExpr {
    SqlExpr::BinaryOp(Box::new(expr_model(left)), op_model(op), Box::new(expr_model(right)))
}

/// Part of reading sqlparser's tree into the model: an item of the SELECT list, with
/// the text that sqlparser prints for it.
#[verifier::external_body]
fn entry_model(item: &SelectItem) -> SqlSelectEntry {
    let kind = match item.clone() {
        SelectItem::UnnamedExpr(e) => SqlSelectItem::Unnamed(expr_model(e)),
        SelectItem::ExprWithAlias { .. } => SqlSelectItem::WithAlias,
        _ => SqlSelectItem::Wildcard,
    };
    SqlSelectEntry { text: item.to_string(), item: kind }
}

/// Part of reading sqlparser's tree into the model: the first table of a FROM.
#[verifier::external_body]
fn table_model(t: &TableWithJoins) -> SqlTable {
    match &t.relation {
        TableFactor::Table { name, alias, .. } => SqlTable::Named(name.0[0].value.clone(), alias.is_some()),
        _ => SqlTable::Other,
    }
}

/// Part of reading sqlparser's tree into the model: a SELECT.
#[verifier::external_body]
fn select_model(s: &Select) -> SqlSelect {
    SqlSelect {
        projection: s.projection.iter().map(entry_model).collect(),
        from: s.from.first().map(table_model),
        selection: s.selection.clone().map(expr_model),
        group_by: s.group_by.iter().cloned().map(expr_model).collect(),
    }
}

/// Part of reading sqlparser's tree into the model: a query.
#[verifier::external_body]
fn query_model(q: &Query) -> SqlQuery {
    let select = match &*q.body {
        SetExpr::Select(s) => Some(select_model(s)),
        _ => None,
    };
    SqlQuery { select, order_by: q.order_by.iter().map(|o| expr_model(o.expr.clone())).collect() }
}

/// Part of reading sqlparser's tree into the model: a query with its model.
#[verifier::external_body]
fn query_with_model(q: Query) -> (Query, SqlQuery) {
    let model = query_model(&q);
    (q, model)
}

/// What `sqlparser::parser::Parser::parse_sql` makes of `text` in the dialect: for
/// each statement that it reads, in order, the model of its query (see `SqlQuery`),
/// or none where the statement is no query; or why it refuses the text.
pub uninterp spec fn sql_statements(dialect: SqlDialect, text: Seq<char>) -> Result<Seq<Option<SqlQuery>>, SqlParseError>;

/// What a text comes to (see `SqlParseOutcome`): a query where the last statement
/// read is one.
pub open spec fn sql_parse_outcome(dialect: SqlDialect, text: Seq<char>) -> SqlParseOutcome {
    match sql_statements(dialect, text) {
        Err(e) => SqlParseOutcome::Refused(e),
        Ok(models) => if models.len() > 0 && models.last() is Some {
            SqlParseOutcome::Query
        } else {
            SqlParseOutcome::NoQuery
        },
    }
}

/// The model of the query that `text` holds: that of the last statement, where it is
/// a query.
pub open spec fn sql_query_model(dialect: SqlDialect, text: Seq<char>) -> Option<SqlQuery> {
    match sql_statements(dialect, text) {
        Ok(models) => if models.len() > 0 { models.last() } else { None },
        Err(_) => None,
    }
}

/// The model of a statement that sqlparser read: that of its query, or none.
pub open spec fn statement_model(s: Option<(Query, SqlQuery)>) -> Option<SqlQuery> {
    match s {
        Some((_, m)) => Some(m),
        None => None,
    }
}

/// `Parser::parse_sql` in the dialect, each query statement with its tree and the model
/// read from it, any other statement as none, the error as the library's. Trusted to
/// give the models that `sql_statements` names; the tree is carried through, and what
/// it holds beyond the model is not stated. The texts on which the parser may panic
/// are left out. The model is read here, beside the call (see `expr_model` and the
/// functions after it): sqlparser's tree is opaque to verified code, so what the parser
/// read can only be named together with the reading of it.
#[verifier::external_body]
fn parse_statements(dialect: SqlDialect, text: &str) -> (r: Result<Vec<Option<(Query, SqlQuery)>>, SqlParseError>)
    requires
        !sql_parse_may_panic(dialect, text@),
    ensures
        match r {
            Err(e) => sql_statements(dialect, text@) == Err::<Seq<Option<SqlQuery>>, SqlParseError>(e),
            Ok(v) => sql_statements(dialect, text@) == Ok::<Seq<Option<SqlQuery>>, SqlParseError>(
                v@.map_values(|s: Option<(Query, SqlQuery)>| statement_model(s)),
            ),
        },
{
    let parsed = match dialect {
        SqlDialect::Generic => Parser::parse_sql(&GenericDialect {}, text),
        SqlDialect::MySql => Parser::parse_sql(&MySqlDialect {}, text),
    };
    match parsed {
        Ok(statements) => Ok(statements.into_iter().map(|s| match s {
            Statement::Query(q) => Some(query_with_model(*q)),
            _ => None,
        }).collect()),
        Err(ParserError::TokenizerError(m)) => Err(SqlParseError::Tokenizer(m)),
        Err(ParserError::ParserError(m)) => Err(SqlParseError::Parser(m)),
        Err(ParserError::RecursionLimitExceeded) => Err(SqlParseError::RecursionLimit),
    }
}

/// The query that `text` holds, its tree and its model (see `sql_query_model`), or why
/// there is none: the message of a refusal (see `parse_error_message`), or `No query
/// was provided` where there is no statement or the last one is no query.
pub fn parse_query(dialect: SqlDialect, text: &str) -> (r: Result<(Query, SqlQuery), String>)
    requires
        !sql_parse_may_panic(dialect, text@),
    ensures
        match sql_parse_outcome(dialect, text@) {
            SqlParseOutcome::Refused(e) => r matches Err(m) && m@ == parse_error_message(e),
            SqlParseOutcome::NoQuery => r matches Err(m) && m@ == "No query was provided"@,
            SqlParseOutcome::Query => r matches Ok((_, m)) && sql_query_model(dialect, text@) == Some(m),
        },
{
    match parse_statements(dialect, text) {
        Err(e) => Err(parse_error_text(e)),
        Ok(mut statements) => match statements.pop() {
            Some(Some(q)) => Ok(q),
            _ => Err(String::from_str("No query was provided")),
        },
    }
}

/// Part of writing a model back into sqlparser's tree: an identifier.
#[verifier::external_body]
fn ident_tree(id: SqlIdent) -> Ident {
    Ident { value: id.value, quote_style: id.quote_style }
}

/// Part of writing a model back into sqlparser's tree: a binary operator.
#[verifier::external_body]
fn op_tree(op: SqlBinOp) -> BinaryOperator {
    match op {
        SqlBinOp::Eq => BinaryOperator::Eq,
        SqlBinOp::And => BinaryOperator::And,
        SqlBinOp::Other(other) => other,
    }
}

/// Part of writing a model back into sqlparser's tree: a function argument.
#[verifier::external_body]
fn arg_tree(a: SqlFunctionArg) -> FunctionArg {
    match a {
        SqlFunctionArg::Unnamed(e) => FunctionArg::Unnamed(FunctionArgExpr::Expr(expr_tree(e))),
        SqlFunctionArg::Other(other) => other,
    }
}

/// Part of writing a model back into sqlparser's tree: a binary operation.
#[verifier::external_body]
fn binary_tree(left: SqlExpr, op: SqlBinOp, right: SqlExpr) -> Expr {
    Expr::BinaryOp { left: Box::new(expr_tree(left)), op: op_tree(op), right: Box::new(expr_tree(right)) }
}

/// Part of writing a model back into sqlparser's tree: an expression.
#[verifier::external_body]
fn expr_tree(e: SqlExpr) -> Expr {
    match e {
        SqlExpr::Identifier(id) => Expr::Identifier(ident_tree(id)),
        SqlExpr::CompoundIdentifier(ids) => Expr::CompoundIdentifier(ids.into_iter().map(ident_tree).collect()),
        SqlExpr::BinaryOp(left, op, right) => binary_tree(*left, op, *right),
        SqlExpr::InList(expr, list, negated) => {
            Expr::InList { expr: Box::new(expr_tree(*expr)), list: list.into_iter().map(expr_tree).collect(), negated }
        },
        SqlExpr::Function(mut f, args) => {
            f.args = args.into_iter().map(arg_tree).collect();
            Expr::Function(f)
        },
        SqlExpr::JsonArrow(l, r) => json_arrow_tree(*l, *r),
        SqlExpr::Other(other) => other,
    }
}

/// Part of writing a model back into sqlparser's tree: `left -> right`.
#[verifier::external_body]
fn json_arrow_tree(left: SqlExpr, right: SqlExpr) -> Expr {
    Expr::JsonAccess { left: Box::new(expr_tree(left)), operator: JsonOperator::Arrow, right: Box::new(expr_tree(right)) }
}

/// Part of writing a model back into sqlparser's tree: an item of the SELECT list, or
/// the item that stood there where the model does not read it.
#[verifier::external_body]
fn item_tree(old: Option<SelectItem>, entry: SqlSelectEntry) -> Option<SelectItem> {
    match entry.item {
        SqlSelectItem::Unnamed(e) => Some(SelectItem::UnnamedExpr(expr_tree(e))),
        _ => old,
    }
}

/// Part of writing a model back into sqlparser's tree: a SELECT, its list that of the
/// model.
#[verifier::external_body]
fn set_select(s: &mut Select, r: SqlSelect) {
    let mut old = std::mem::take(&mut s.projection).into_iter();
    s.projection = r.projection.into_iter().filter_map(|e| item_tree(old.next(), e)).collect();
    if let (Some(t), Some(SqlTable::Named(table, _))) = (s.from.get_mut(0), r.from) {
        if let TableFactor::Table { name, .. } = &mut t.relation {
            name.0[0].value = table;
        }
    }
    s.selection = r.selection.map(expr_tree);
    s.group_by = r.group_by.into_iter().map(expr_tree).collect();
}

/// Part of writing a model back into sqlparser's tree: a query.
#[verifier::external_body]
fn query_tree(mut q: Query, r: SqlQuery) -> Query {
    if let (SetExpr::Select(s), Some(rs)) = (&mut *q.body, r.select) {
        set_select(s, rs);
    }
    for (o, e) in q.order_by.iter_mut().zip(r.order_by) {
        o.expr = expr_tree(e);
    }
    q
}

/// The text that sqlparser prints for the query that `text` holds in the dialect, with
/// the parts that the model reads replaced by those of `model`.
pub uninterp spec fn sql_printed_query(dialect: SqlDialect, text: Seq<char>, model: SqlQuery) -> Seq<char>;

/// Whether `model` is a rewriting of the model of the query that `text` holds, by one of
/// the services' rewritings (see `zeroflops_web::query::rewritten_from`,
/// `topbops_web::query::rewritten_from` and `smashsort::transformed_from`).
pub open spec fn rewritten_text_model(dialect: SqlDialect, text: Seq<char>, model: SqlQuery) -> bool {
    sql_query_model(dialect, text) matches Some(m0) && (crate::zeroflops_web::query::rewritten_from(m0, model)
        || crate::topbops_web::query::rewritten_from(m0, model) || crate::smashsort::transformed_from(m0, model))
}

/// `Parser::parse_sql` in the dialect, the last statement's query with the parts that
/// `model` reads written into it (see `query_tree` and the functions before it),
/// printed by sqlparser (`to_string`). Trusted to give what `sql_printed_query` names;
/// the tree that is printed is opaque to verified code, so the writing back stands
/// beside the calls. A rewriting of the text's own model prints without
/// fail: its identifiers are sqlparser's own or new ones without quotes, and every other
/// part is one that sqlparser read from the text.
#[verifier::external_body]
pub(crate) fn print_query(dialect: SqlDialect, text: &str, model: SqlQuery) -> (r: String)
    requires
        !sql_parse_may_panic(dialect, text@),
        rewritten_text_model(dialect, text@, model),
    ensures
        r@ == sql_printed_query(dialect, text@, model),
{
    let parsed = match dialect {
        SqlDialect::Generic => Parser::parse_sql(&GenericDialect {}, text),
        SqlDialect::MySql => Parser::parse_sql(&MySqlDialect {}, text),
    };
    match parsed.map(|mut statements| statements.pop()) {
        Ok(Some(Statement::Query(q))) => query_tree(*q, model).to_string(),
        _ => String::new(),
    }
}

/// The message that a refused text is answered with: the tokenizer's or the parser's,
/// or that the query is too long.
pub open spec fn parse_error_message(e: SqlParseError) -> Seq<char> {
    match e {
        SqlParseError::Tokenizer(m) => m@,
        SqlParseError::Parser(m) => m@,
        SqlParseError::RecursionLimit => "Query is too long"@,
    }
}

/// The message of a refusal (see `parse_error_message`).
pub fn parse_error_text(e: SqlParseError) -> (r: String)
    ensures
        r@ == parse_error_message(e),
{
    match e {
        SqlParseError::Tokenizer(m) => m,
        SqlParseError::Parser(m) => m,
        SqlParseError::RecursionLimit => String::from_str("Query is too long"),
    }
}

} // verus!
