//! SQL templating with introspection.
//!
//! `Sql` is a SQL string with the metadata extracted from it (tables,
//! columns, query type, number of `?` placeholders); `Query` keeps SQL and
//! its parameters apart; `RowAccess`, `FromSql` and `SimpleRow` read query
//! results. The functions behind the `sql!`, `sql_fn!` and
//! `#[derive(QueryResult)]` macros are here too, on plain values: `sql`,
//! `sql_fn` and `derive_query_result`.
pub mod derive;
pub mod expand;
pub mod metadata;
pub mod parser;
pub mod query;
pub mod row;
pub mod sql;
pub mod sql_fn;
pub mod text;
pub mod tokens;

pub use derive::{
    derive_query_result, extract_sql_from_attributes, process_derive_sql, AttributeDef, DataDef,
    DeriveError, DeriveInput, FieldDef, FieldRead, FieldsDef, QueryResultImpl,
};
pub use expand::{sql, sql_with_statement, SqlSyntaxError};
pub use metadata::{
    count_placeholders, extract_metadata, extract_select_metadata, FromEntry, ProjectionItem,
    QueryBody, SelectSummary, SqlMetadata, StatementSummary,
};
pub use query::Query;
pub use row::{FromSql, RowAccess, SimpleRow, ValueError};
pub use sql::{QueryType, Sql};
pub use sql_fn::{sql_fn, sql_fn_params_out_of_order, ParamDef, SqlFnDef, SqlFnError};
pub use tokens::{process_token_stream, unescape_string, Delimiter, Token};
