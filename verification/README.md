# sqltmpl

SQL templating with introspection, verified with Verus.

- `Sql` holds a SQL string with the metadata extracted from it: the tables it
  refers to, the columns it selects, its query type and its number of `?`
  placeholders. `Query<T>` keeps SQL and its parameters apart.
- `RowAccess`, `FromSql` and `SimpleRow` read query results into Rust values.
- `sql`, `sql_fn` and `derive_query_result` compute what the `sql!`,
  `sql_fn!` and `#[derive(QueryResult)]` macros generate, on plain values:
  tokens, the text of a function definition, and a description of a struct.
  SQL is checked with `sqlparser` (ANSI dialect).

Layout:

- `src/` — the library, verified by Verus. The calls into `sqlparser` and
  the few std functions that Verus has no specification for go through
  small trusted wrappers, each with a doc comment saying what it claims.
  `text.rs` states and implements the string operations everything else is
  built on (trimming, finding, splitting, replacing) over sequences of
  characters. `parser.rs` is the only place that touches `sqlparser`.
- `tests/` — tests of the library.
- `app/` — the code generation of the macros on `proc_macro2` token streams,
  with `syn` and `quote`; it converts tokens and syntax trees into the
  library's values and the library's results back into code.
