//! What the `sql!` macro computes: the SQL text of its tokens, checked by the
//! ANSI parser, with the metadata of its first statement.
use vstd::prelude::*;

use crate::metadata::{
    extract_metadata, first_statement, placeholder_count, statement_views, sql_from_metadata,
    statement_columns, statement_tables, statement_type, StatementSummary, StatementView,
};
use crate::parser::{parse_statements, spec_ansi_accepts, spec_ansi_parse};
use crate::sql::{QueryType, Sql, SqlView};
use crate::text::{chars_of, push_all, string_of};
use crate::tokens::{stream_chars, stream_text, Token};

verus! {

/// The SQL text of a `sql!` invocation does not parse.
#[derive(Debug)]
pub struct SqlSyntaxError {
    /// The parser's message, where the invocation has tokens.
    pub detail: Option<String>,
}

impl SqlSyntaxError {
    /// The compile error that the macro reports.
    pub fn message(&self) -> (r: String)
        ensures
            self.detail matches Some(d) ==> r@ == "SQL syntax error: "@ + d@,
            self.detail is None ==> r@ == "SQL syntax error"@,
    {
        match &self.detail {
            Some(d) => {
                let mut v = chars_of("SQL syntax error: ");
                let dv = chars_of(d.as_str());
                push_all(&mut v, &dv);
                string_of(&v)
            },
            None => {
                let v = chars_of("SQL syntax error");
                string_of(&v)
            },
        }
    }
}

/// What the `Sql` of the SQL text `text` is, where `first` is its first
/// parsed statement, if it has one.
pub open spec fn sql_view_of(text: Seq<char>, first: Option<StatementView>) -> SqlView {
    match first {
        Some(s) => SqlView {
            value: text,
            tables: statement_tables(s),
            columns: statement_columns(s),
            query_type: statement_type(s),
            param_count: placeholder_count(text),
        },
        None => SqlView {
            value: text,
            tables: Seq::empty(),
            columns: Seq::empty(),
            query_type: QueryType::Other,
            param_count: placeholder_count(text),
        },
    }
}

/// The view of the statement behind an optional reference.
pub open spec fn ref_statement_view(first: Option<&StatementSummary>) -> Option<StatementView> {
    match first {
        Some(s) => Some(s@),
        None => None,
    }
}

/// The `Sql` value for the SQL text `text`, whose first parsed statement, if
/// there is one, is `first`.
pub fn sql_with_statement(text: &str, first: Option<&StatementSummary>) -> (r: Sql)
    ensures
        r@ == sql_view_of(text@, ref_statement_view(first)),
{
    let meta = extract_metadata(text, first);
    let r = sql_from_metadata(meta);
    assert(r@.tables =~= sql_view_of(text@, ref_statement_view(first)).tables);
    assert(r@.columns =~= sql_view_of(text@, ref_statement_view(first)).columns);
    r
}

/// What `sql!(tokens)` evaluates to: the SQL text of the tokens, with the
/// metadata of the first statement it parses to, or the syntax error that
/// the macro reports, with the parser's message where there are tokens.
pub fn sql(tokens: &[Token]) -> (r: Result<Sql, SqlSyntaxError>)
    ensures
        r is Ok <==> spec_ansi_accepts(stream_text(tokens@)),
        r matches Ok(q) ==> q@ == sql_view_of(
            stream_text(tokens@),
            first_statement(spec_ansi_parse(stream_text(tokens@))->Ok_0),
        ),
        r matches Err(e) ==> (e.detail is Some <==> tokens@.len() > 0),
        r matches Err(e) ==> (e.detail matches Some(d) ==> d@ == spec_ansi_parse(
            stream_text(tokens@),
        )->Err_0),
{
    let v = stream_chars(tokens);
    let text = string_of(&v);
    match parse_statements(text.as_str()) {
        Ok(statements) => {
            let q = if statements.len() > 0 {
                let q = sql_with_statement(text.as_str(), Some(&statements[0]));
                assert(statement_views(statements@)[0] == statements@[0]@);
                q
            } else {
                sql_with_statement(text.as_str(), None)
            };
            Ok(q)
        },
        Err(message) => {
            if tokens.len() > 0 {
                Err(SqlSyntaxError { detail: Some(message) })
            } else {
                Err(SqlSyntaxError { detail: None })
            }
        },
    }
}

/// Only a SELECT has columns: whatever statement the SQL parses to, a `Sql`
/// built from it names columns only where it is a SELECT, and its number of
/// parameters is the number of `?` outside quoted text.
pub proof fn law_sql_metadata_shape(text: Seq<char>, first: Option<StatementView>)
    ensures
        sql_view_of(text, first).query_type != QueryType::Select ==> sql_view_of(
            text,
            first,
        ).columns.len() == 0,
        sql_view_of(text, first).param_count == placeholder_count(text),
        sql_view_of(text, first).value == text,
{
}

} // verus!
