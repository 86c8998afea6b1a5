//! The bridge to `sqlparser`: parsing with the ANSI dialect, and reading the
//! parsed statements into `StatementSummary` values.
//!
//! The syntax tree is opaque here. The trusted items below parse, and convert
//! each statement's parts that metadata can be read from into the library's
//! plain types, one node for one value: a name becomes its SQL text (with its
//! `Display` impl), an identifier its value, and each enum's variants are told
//! apart, one arm each. Which statement is used, and which of its parts give
//! the tables, the columns and the query type, is decided by verified code
//! (`expand.rs` and `metadata.rs`).
use vstd::prelude::*;

use sqlparser::ast::{
    Expr, FromTable, Select, SelectItem, SetExpr, Statement, TableFactor, TableWithJoins,
};
use sqlparser::dialect::AnsiDialect;
use sqlparser::parser::Parser;

use crate::metadata::{
    statement_views, FromEntry, ProjectionItem, QueryBody, SelectSummary, StatementSummary,
    StatementView,
};

verus! {

#[verifier::external_type_specification]
#[verifier::external_body]
pub struct ExStatement(Statement);

#[verifier::external_type_specification]
#[verifier::external_body]
pub struct ExSetExpr(SetExpr);

#[verifier::external_type_specification]
#[verifier::external_body]
pub struct ExSelect(Select);

#[verifier::external_type_specification]
#[verifier::external_body]
pub struct ExTableWithJoins(TableWithJoins);

#[verifier::external_type_specification]
#[verifier::external_body]
pub struct ExTableFactor(TableFactor);

#[verifier::external_type_specification]
#[verifier::external_body]
pub struct ExSelectItem(SelectItem);

#[verifier::external_type_specification]
#[verifier::external_body]
pub struct ExFromTable(FromTable);

/// What `sqlparser` makes of `sql` in the ANSI dialect, read as plain
/// values: the statements it parses to, each converted as `model_statement`
/// converts it; or, where it refuses the text, the message of its error
/// (`ParserError`'s `Display` impl). The parser is a deterministic function
/// of the text.
pub uninterp spec fn spec_ansi_parse(sql: Seq<char>) -> Result<Seq<StatementView>, Seq<char>>;

/// Whether `sqlparser` accepts `sql` in the ANSI dialect.
pub open spec fn spec_ansi_accepts(sql: Seq<char>) -> bool {
    spec_ansi_parse(sql) is Ok
}

/// The view of a parse result: the views of the statements, or the text of
/// the message.
pub open spec fn parse_view(r: Result<Vec<StatementSummary>, String>) -> Result<
    Seq<StatementView>,
    Seq<char>,
> {
    match r {
        Ok(v) => Ok(statement_views(v@)),
        Err(m) => Err(m@),
    }
}

/// `sqlparser::parser::Parser::parse_sql` with `AnsiDialect`: the statements,
/// each converted by `model_statement`, or the error's message.
///
/// Claims that the converted statements, or the message, are what the name
/// `spec_ansi_parse` gives for the text, which depends on the text alone.
#[verifier::external_body]
pub(crate) fn parse_statements(sql: &str) -> (r: Result<Vec<StatementSummary>, String>)
    ensures
        parse_view(r) == spec_ansi_parse(sql@),
{
    match Parser::parse_sql(&AnsiDialect {}, sql) {
        Ok(v) => Ok(v.iter().map(model_statement).collect()),
        Err(e) => Err(e.to_string()),
    }
}

/// Converts a table factor: the name of a named table
/// (`TableFactor::Table`), rendered by `ObjectName`'s `Display` impl.
/// Part of `parse_statements`'s conversion.
#[verifier::external_body]
fn model_relation(tf: &TableFactor) -> Option<String> {
    match tf {
        TableFactor::Table { name, .. } => Some(name.to_string()),
        _ => None,
    }
}

/// Converts a FROM entry: its relation and the relations of its joins.
/// Part of `parse_statements`'s conversion.
#[verifier::external_body]
fn model_entry(t: &TableWithJoins) -> FromEntry {
    FromEntry {
        relation: model_relation(&t.relation),
        joins: t.joins.iter().map(|j| model_relation(&j.relation)).collect(),
    }
}

/// Converts a SELECT item, with its expression where it is a bare or a
/// qualified identifier (the values of the identifiers).
/// Part of `parse_statements`'s conversion.
#[verifier::external_body]
fn model_item(item: &SelectItem) -> ProjectionItem {
    match item {
        SelectItem::UnnamedExpr(Expr::Identifier(i)) => ProjectionItem::Identifier(i.value.clone()),
        SelectItem::UnnamedExpr(Expr::CompoundIdentifier(parts)) => {
            ProjectionItem::CompoundIdentifier(parts.iter().map(|p| p.value.clone()).collect())
        },
        SelectItem::ExprWithAlias { alias, .. } => ProjectionItem::Alias(alias.value.clone()),
        SelectItem::Wildcard(_) => ProjectionItem::Wildcard,
        _ => ProjectionItem::Other,
    }
}

/// Converts a plain SELECT: its FROM entries and its SELECT items.
/// Part of `parse_statements`'s conversion.
#[verifier::external_body]
fn model_select(s: &Select) -> SelectSummary {
    SelectSummary {
        from: s.from.iter().map(model_entry).collect(),
        projection: s.projection.iter().map(model_item).collect(),
    }
}

/// Converts the body of a query (`SetExpr`); a parenthesized query is
/// converted by its own body. Part of `parse_statements`'s conversion.
#[verifier::external_body]
fn model_body(e: &SetExpr) -> QueryBody {
    match e {
        SetExpr::Select(s) => QueryBody::Select(model_select(s)),
        SetExpr::Query(q) => QueryBody::Nested(Box::new(model_body(&q.body))),
        SetExpr::SetOperation { left, right, .. } => {
            QueryBody::SetOperation(Box::new(model_body(left)), Box::new(model_body(right)))
        },
        _ => QueryBody::Other,
    }
}

/// Converts the FROM clause of a DELETE (with or without the keyword).
/// Part of `parse_statements`'s conversion.
#[verifier::external_body]
fn model_from_table(f: &FromTable) -> Vec<FromEntry> {
    match f {
        FromTable::WithFromKeyword(ts) => ts.iter().map(model_entry).collect(),
        FromTable::WithoutKeyword(ts) => ts.iter().map(model_entry).collect(),
    }
}

/// Converts a statement: the body of a query; the table of an INSERT
/// (`TableObject`'s `Display` impl); the relation of an UPDATE's table
/// (`TableFactor`'s `Display` impl); the tables named before the FROM of a
/// DELETE (`ObjectName`'s `Display` impl) and its FROM clause; the name of
/// a CREATE TABLE and the names of a DROP (`ObjectName`'s `Display` impl).
/// Part of `parse_statements`'s conversion.
#[verifier::external_body]
fn model_statement(s: &Statement) -> StatementSummary {
    match s {
        Statement::Query(q) => StatementSummary::Query(model_body(&q.body)),
        Statement::Insert(i) => StatementSummary::Insert(i.table.to_string()),
        Statement::Update(u) => StatementSummary::Update(u.table.relation.to_string()),
        Statement::Delete(d) => StatementSummary::Delete(
            d.tables.iter().map(|n| n.to_string()).collect(),
            model_from_table(&d.from),
        ),
        Statement::CreateTable(c) => StatementSummary::CreateTable(c.name.to_string()),
        Statement::Drop { names, .. } => {
            StatementSummary::Drop(names.iter().map(|n| n.to_string()).collect())
        },
        _ => StatementSummary::Other,
    }
}

} // verus!
