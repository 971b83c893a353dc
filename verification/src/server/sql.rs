//! The query path's reading of SQL text: which table a `SELECT` reads and
//! its one-comparison `WHERE` filter. `sqlparser` does the parsing; the
//! filter's number stays text here and is read as a number by the caller.
use sqlparser::ast::{Expr, SetExpr, Statement, Value};
use sqlparser::dialect::GenericDialect;
use sqlparser::parser::Parser;
use vstd::prelude::*;

verus! {

/// A statement of a SQL text, as the query path tells statements apart: a
/// query whose body is a plain `SELECT`, with the text of each relation in
/// its `FROM` list, or any other statement.
#[derive(Debug)]
pub enum SqlStatement {
    Select(Vec<String>),
    Other,
}

/// A `SqlStatement` as plain values.
pub enum SqlStatementView {
    Select(Seq<Seq<char>>),
    Other,
}

impl View for SqlStatement {
    type V = SqlStatementView;

    open spec fn view(&self) -> SqlStatementView {
        match self {
            SqlStatement::Select(t) => SqlStatementView::Select(t@.map_values(|s: String| s@)),
            SqlStatement::Other => SqlStatementView::Other,
        }
    }
}

/// The statements `Parser::parse_sql` finds in `sql` with the generic
/// dialect, each as a `SqlStatementView`; or the parser's error text.
pub uninterp spec fn sql_statements(sql: Seq<char>) -> Result<Seq<SqlStatementView>, Seq<char>>;

/// The plain-value view of a list of statements.
pub open spec fn statements_view(v: Seq<SqlStatement>) -> Seq<SqlStatementView> {
    v.map_values(|st: SqlStatement| st@)
}

/// `sqlparser::parser::Parser::parse_sql` with the generic dialect, each
/// statement converted to a `SqlStatement` (a relation by its `Display`
/// text); the parser's error as its text.
#[verifier::external_body]
fn parse_statements(sql: &str) -> (r: Result<Vec<SqlStatement>, String>)
    ensures
        match r {
            Ok(v) => sql_statements(sql@) == Ok::<Seq<SqlStatementView>, Seq<char>>(statements_view(v@)),
            Err(e) => sql_statements(sql@) == Err::<Seq<SqlStatementView>, Seq<char>>(e@),
        },
{
    let ast = match Parser::parse_sql(&GenericDialect {}, sql) {
        Ok(a) => a,
        Err(e) => return Err(e.to_string()),
    };
    Ok(ast.iter().map(|st| match st {
        Statement::Query(q) => match &*q.body {
            SetExpr::Select(s) => SqlStatement::Select(s.from.iter().map(|t| t.relation.to_string()).collect()),
            _ => SqlStatement::Other,
        },
        _ => SqlStatement::Other,
    }).collect())
}

/// An operand of a comparison: an identifier (by its name), a number
/// literal (by its text), or anything else.
#[derive(Debug)]
pub enum SqlOperand {
    Identifier(String),
    Number(String),
    Other,
}

/// A `SqlOperand` as plain values.
pub enum SqlOperandView {
    Identifier(Seq<char>),
    Number(Seq<char>),
    Other,
}

impl View for SqlOperand {
    type V = SqlOperandView;

    open spec fn view(&self) -> SqlOperandView {
        match self {
            SqlOperand::Identifier(n) => SqlOperandView::Identifier(n@),
            SqlOperand::Number(n) => SqlOperandView::Number(n@),
            SqlOperand::Other => SqlOperandView::Other,
        }
    }
}

/// A `WHERE` expression: a binary operation (its operands and the
/// operator's text), or anything else.
#[derive(Debug)]
pub enum SqlExpr {
    BinaryOp(SqlOperand, String, SqlOperand),
    Other,
}

/// A `SqlExpr` as plain values.
pub enum SqlExprView {
    BinaryOp(SqlOperandView, Seq<char>, SqlOperandView),
    Other,
}

impl View for SqlExpr {
    type V = SqlExprView;

    open spec fn view(&self) -> SqlExprView {
        match self {
            SqlExpr::BinaryOp(l, op, r) => SqlExprView::BinaryOp(l@, op@, r@),
            SqlExpr::Other => SqlExprView::Other,
        }
    }
}

/// The `WHERE` expression of statement `index` of `sql` as
/// `Parser::parse_sql` reads it with the generic dialect: `None` when the
/// text does not parse, has no such statement, the statement is not a
/// plain `SELECT` query, or it has no `WHERE` clause.
pub uninterp spec fn sql_where(sql: Seq<char>, index: usize) -> Option<SqlExprView>;

/// `Parser::parse_sql` with the generic dialect, then the `WHERE` clause of
/// statement `index`, converted to a `SqlExpr` (the operator by its
/// `Display` text).
#[verifier::external_body]
fn statement_where(sql: &str, index: usize) -> (r: Option<SqlExpr>)
    ensures
        match r {
            Some(e) => sql_where(sql@, index) == Some(e@),
            None => sql_where(sql@, index) is None,
        },
{
    let ast = match Parser::parse_sql(&GenericDialect {}, sql) { Ok(a) => a, Err(_) => return None };
    let selection = match ast.get(index) {
        Some(Statement::Query(q)) => match &*q.body { SetExpr::Select(s) => s.selection.as_ref()?, _ => return None },
        _ => return None,
    };
    let operand = |e: &Expr| match e {
        Expr::Identifier(id) => SqlOperand::Identifier(id.value.clone()),
        Expr::Value(Value::Number(n, _)) => SqlOperand::Number(n.clone()),
        _ => SqlOperand::Other,
    };
    Some(match selection {
        Expr::BinaryOp { left, op, right } => SqlExpr::BinaryOp(operand(left), op.to_string(), operand(right)),
        _ => SqlExpr::Other,
    })
}

/// A query the query path supports: the table it reads, and its filter (the
/// column, the number literal's text and the operator), if any.
#[derive(Debug)]
pub struct ParsedQuery {
    pub table: String,
    /// The filtered column (empty when the left operand is no identifier).
    pub filter_col: Option<String>,
    /// The filter's number literal as text (empty when the right operand is
    /// no number literal, which reads as 0).
    pub filter_literal: Option<String>,
    /// The filter's operator: `>`, `<`, `=`, or `?` for any other.
    pub filter_op: Option<String>,
}

/// A `ParsedQuery` as plain values.
pub struct ParsedQueryView {
    pub table: Seq<char>,
    pub filter_col: Option<Seq<char>>,
    pub filter_literal: Option<Seq<char>>,
    pub filter_op: Option<Seq<char>>,
}

/// The text of an optional string, as an optional sequence.
pub open spec fn opt_text(o: Option<String>) -> Option<Seq<char>> {
    match o {
        Some(s) => Some(s@),
        None => None,
    }
}

impl View for ParsedQuery {
    type V = ParsedQueryView;

    open spec fn view(&self) -> ParsedQueryView {
        ParsedQueryView {
            table: self.table@,
            filter_col: opt_text(self.filter_col),
            filter_literal: opt_text(self.filter_literal),
            filter_op: opt_text(self.filter_op),
        }
    }
}

/// The error for SQL the query path does not support.
pub open spec fn spec_unsupported() -> Seq<char> {
    "SQL no soportado o complejo"@
}

/// The operator the query path records for operator text `op`.
pub open spec fn spec_filter_op(op: Seq<char>) -> Seq<char> {
    if op == ">"@ {
        ">"@
    } else if op == "<"@ {
        "<"@
    } else if op == "="@ {
        "="@
    } else {
        "?"@
    }
}

/// The name of a filter's column: the identifier's, empty for any other
/// operand.
pub open spec fn spec_column(o: SqlOperandView) -> Seq<char> {
    match o {
        SqlOperandView::Identifier(n) => n,
        _ => Seq::empty(),
    }
}

/// The text of a filter's number: the literal's, empty (read as 0) for any
/// other operand.
pub open spec fn spec_literal(o: SqlOperandView) -> Seq<char> {
    match o {
        SqlOperandView::Number(n) => n,
        _ => Seq::empty(),
    }
}

/// The query read from the statements `stmts` and the first statement's
/// `WHERE` expression `filter`: the first statement must be a `SELECT` with
/// a relation in its `FROM` list, which is the table; a binary operation is
/// its filter, and any other `WHERE` clause is ignored.
pub open spec fn spec_parsed_query(
    stmts: Seq<SqlStatementView>,
    filter: Option<SqlExprView>,
) -> Result<ParsedQueryView, Seq<char>> {
    if stmts.len() == 0 {
        Err(spec_unsupported())
    } else {
        match stmts[0] {
            SqlStatementView::Select(tables) => if tables.len() == 0 {
                Err(spec_unsupported())
            } else {
                match filter {
                    Some(SqlExprView::BinaryOp(left, op, right)) => Ok(ParsedQueryView {
                        table: tables[0],
                        filter_col: Some(spec_column(left)),
                        filter_literal: Some(spec_literal(right)),
                        filter_op: Some(spec_filter_op(op)),
                    }),
                    _ => Ok(ParsedQueryView { table: tables[0], filter_col: None, filter_literal: None, filter_op: None }),
                }
            },
            SqlStatementView::Other => Err(spec_unsupported()),
        }
    }
}

/// What `parse_sql` answers for `sql`.
pub open spec fn spec_parsed(sql: Seq<char>) -> Result<ParsedQueryView, Seq<char>> {
    match sql_statements(sql) {
        Ok(stmts) => spec_parsed_query(stmts, sql_where(sql, 0)),
        Err(e) => Err(e),
    }
}

/// The result of a parse as plain values.
pub open spec fn parsed_view(r: Result<ParsedQuery, String>) -> Result<ParsedQueryView, Seq<char>> {
    match r {
        Ok(q) => Ok(q@),
        Err(e) => Err(e@),
    }
}

fn filter_op(op: &String) -> (r: String)
    ensures
        r@ == spec_filter_op(op@),
{
    if *op == ">".to_owned() {
        ">".to_owned()
    } else if *op == "<".to_owned() {
        "<".to_owned()
    } else if *op == "=".to_owned() {
        "=".to_owned()
    } else {
        "?".to_owned()
    }
}

/// The query read from parsed statements `stmts` and the first statement's
/// `WHERE` expression `filter` (see `spec_parsed_query`).
pub fn parsed_query(stmts: &Vec<SqlStatement>, filter: Option<SqlExpr>) -> (r: Result<ParsedQuery, String>)
    ensures
        parsed_view(r) == spec_parsed_query(statements_view(stmts@), match filter {
            Some(f) => Some(f@),
            None => None,
        }),
{
    if stmts.len() == 0 {
        return Err("SQL no soportado o complejo".to_owned());
    }
    let tables = match &stmts[0] {
        SqlStatement::Select(t) => t,
        SqlStatement::Other => {
            return Err("SQL no soportado o complejo".to_owned());
        },
    };
    if tables.len() == 0 {
        return Err("SQL no soportado o complejo".to_owned());
    }
    let table = tables[0].clone();
    match filter {
        Some(SqlExpr::BinaryOp(left, op, right)) => {
            let col = match left {
                SqlOperand::Identifier(c) => c,
                _ => String::new(),
            };
            let literal = match right {
                SqlOperand::Number(n) => n,
                _ => String::new(),
            };
            let op = filter_op(&op);
            Ok(ParsedQuery { table, filter_col: Some(col), filter_literal: Some(literal), filter_op: Some(op) })
        },
        _ => Ok(ParsedQuery { table, filter_col: None, filter_literal: None, filter_op: None }),
    }
}

/// Reads the table and the one-comparison filter of a `SELECT`; SQL that
/// does not parse gives the parser's error, and anything but a `SELECT`
/// from a relation is unsupported.
pub fn parse_sql(sql: &str) -> (r: Result<ParsedQuery, String>)
    ensures
        parsed_view(r) == spec_parsed(sql@),
{
    let stmts = match parse_statements(sql) {
        Ok(v) => v,
        Err(e) => {
            return Err(e);
        },
    };
    let filter = statement_where(sql, 0);
    parsed_query(&stmts, filter)
}


/// What `parse_sql` reads of a `SELECT` whose first statement reads from a
/// relation and whose `WHERE` clause is one binary operation: the first
/// relation is the table, an identifier on the left is the column, a number
/// on the right is the literal, and the operators `>`, `<` and `=` are kept
/// as they are while any other is recorded as `?`.
pub proof fn lemma_parsed_filter(sql: Seq<char>, left: SqlOperandView, op: Seq<char>, right: SqlOperandView)
    requires
        sql_statements(sql) matches Ok(stmts) && stmts.len() > 0
            && (stmts[0] matches SqlStatementView::Select(tables) && tables.len() > 0),
        sql_where(sql, 0) == Some(SqlExprView::BinaryOp(left, op, right)),
    ensures
        spec_parsed(sql) matches Ok(q) && {
            &&& sql_statements(sql) matches Ok(stmts) && (stmts[0] matches SqlStatementView::Select(tables) && q.table == tables[0])
            &&& (left matches SqlOperandView::Identifier(n) ==> q.filter_col == Some(n))
            &&& (left !is Identifier ==> q.filter_col == Some(Seq::<char>::empty()))
            &&& (right matches SqlOperandView::Number(n) ==> q.filter_literal == Some(n))
            &&& (right !is Number ==> q.filter_literal == Some(Seq::<char>::empty()))
            &&& (op == ">"@ || op == "<"@ || op == "="@ ==> q.filter_op == Some(op))
            &&& (!(op == ">"@ || op == "<"@ || op == "="@) ==> q.filter_op == Some("?"@))
        },
{
    reveal_strlit(">");
    reveal_strlit("<");
    reveal_strlit("=");
    reveal_strlit("?");
}

/// A `SELECT` from a relation with no `WHERE` clause, or one that is not a
/// single binary operation, reads as its first relation with no filter; any
/// first statement that is not such a `SELECT` is unsupported, and SQL that
/// does not parse gives the parser's error.
pub proof fn lemma_parsed_without_filter(sql: Seq<char>)
    ensures
        sql_statements(sql) matches Err(e) ==> spec_parsed(sql) == Err::<ParsedQueryView, Seq<char>>(e),
        (sql_statements(sql) matches Ok(stmts) && (stmts.len() == 0 || stmts[0] is Other
            || (stmts[0] matches SqlStatementView::Select(tables) && tables.len() == 0)))
            ==> spec_parsed(sql) == Err::<ParsedQueryView, Seq<char>>("SQL no soportado o complejo"@),
        (sql_statements(sql) matches Ok(stmts) && stmts.len() > 0
            && (stmts[0] matches SqlStatementView::Select(tables) && tables.len() > 0)
            && !(sql_where(sql, 0) matches Some(SqlExprView::BinaryOp(_, _, _))))
            ==> (spec_parsed(sql) matches Ok(q) && q.filter_col is None && q.filter_literal is None && q.filter_op is None),
{
}

} // verus!
