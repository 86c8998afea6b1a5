//! What `#[derive(QueryResult)]` generates for a struct: the columns, the
//! field-to-column reads of `from_row`, and the `Sql` of its `sql()` method.
//!
//! The struct is described by `DeriveInput`, which holds as plain values
//! what the derive reads of it: its name, its attributes and its fields.
use vstd::prelude::*;

use crate::expand::sql_view_of;
use crate::metadata::{
    count_placeholders, extract_metadata, first_statement, placeholder_count, statement_columns,
    statement_views,
};
use crate::parser::{parse_statements, spec_ansi_accepts, spec_ansi_parse};
use crate::sql::{QueryType, Sql, SqlView, copy_strings, texts};
use crate::text::{
    chars_of, find_char, find_char_exec, lemma_find_from_found,
    lemma_rfind_char, occurs_at, push_all, replace_all, replace_exec, rfind_char, rfind_char_exec,
    slice_of, starts_with, starts_with_exec, string_of, trim_start, trim_start_chars,
};

verus! {

/// A named field: its name and its type, as written.
pub struct FieldDef {
    pub name: String,
    pub ty: String,
}

/// The fields of a struct.
pub enum FieldsDef {
    Named(Vec<FieldDef>),
    Unnamed,
    Unit,
}

/// What the derive is applied to.
pub enum DataDef {
    Struct(FieldsDef),
    Enum,
    Union,
}

/// An outer attribute: whether its path is `from_sql`, and, where it is a
/// list attribute (`#[path(...)]`), the text of the tokens in its list.
pub struct AttributeDef {
    pub is_from_sql: bool,
    pub list_tokens: Option<String>,
}

/// The item that `#[derive(QueryResult)]` is applied to.
pub struct DeriveInput {
    pub ident: String,
    pub attrs: Vec<AttributeDef>,
    pub data: DataDef,
}

/// Why the derive does not apply.
#[derive(Debug, Clone, Copy, PartialEq, Eq, Structural)]
pub enum DeriveError {
    TupleStruct,
    UnitStruct,
    NotAStruct,
}

/// A field of the generated `from_row`: the field is read from column `index`.
pub struct FieldRead {
    pub name: String,
    pub ty: String,
    pub index: usize,
}

/// What the derive generates for a struct with named fields.
pub struct QueryResultImpl {
    /// The struct's name.
    pub struct_name: String,
    /// `from_row` reads the fields in order, each from its own column.
    pub reads: Vec<FieldRead>,
    /// What `columns()` returns: the field names, in order.
    pub columns: Vec<String>,
    /// What `sql()` returns.
    pub sql: Sql,
}

// ------------------------------------------------------------------
// Specifications
// ------------------------------------------------------------------

/// The character that an escape `\c` of the token text of a `from_sql`
/// attribute stands for: `\"`, `\n`, `\t` and `\\` are resolved.
pub open spec fn derive_escape(c: char) -> Option<char> {
    if c == '"' {
        Some('"')
    } else if c == 'n' {
        Some('\n')
    } else if c == 't' {
        Some('\t')
    } else if c == '\\' {
        Some('\\')
    } else {
        None
    }
}

/// The token text of a `from_sql` attribute turned back into SQL: its
/// escapes resolved left to right, each escape read once, so that an escaped
/// backslash is taken before what follows it; any other character is kept.
pub open spec fn derive_sql_text(s: Seq<char>) -> Seq<char>
    decreases s.len(),
{
    if s.len() == 0 {
        seq![]
    } else if s.len() >= 2 && s[0] == '\\' && derive_escape(s[1]) is Some {
        seq![derive_escape(s[1])->0] + derive_sql_text(s.skip(2))
    } else {
        seq![s[0]] + derive_sql_text(s.drop_first())
    }
}

/// The token text of an attribute list holds a `sql!(...)` invocation.
pub open spec fn is_sql_invocation(ts: Seq<char>) -> bool {
    starts_with(ts, seq!['s', 'q', 'l', ' ', '!', ' ', '(']) || starts_with(
        ts,
        seq!['s', 'q', 'l', '!', '('],
    )
}

/// The SQL of a `sql!(...)` invocation in an attribute list: the text from
/// after the first `(` up to the last `)`, with leading whitespace removed,
/// passed through `derive_sql_text`.
pub open spec fn invocation_sql(ts: Seq<char>) -> Seq<char> {
    let start = match find_char(ts, '(') {
        Some(i) => i + 1,
        None => 1,
    };
    let end = match rfind_char(ts, ')') {
        Some(i) => i,
        None => ts.len() as int,
    };
    derive_sql_text(trim_start(ts.subrange(start, end)))
}

/// The SQL that one attribute gives, if it is `#[from_sql(sql!(...))]`.
pub open spec fn attribute_sql(a: AttributeDef) -> Option<Seq<char>> {
    if a.is_from_sql && a.list_tokens is Some && is_sql_invocation(a.list_tokens->0@) {
        Some(invocation_sql(a.list_tokens->0@))
    } else {
        None
    }
}

/// The SQL given by the first attribute that gives one.
pub open spec fn attributes_sql(attrs: Seq<AttributeDef>) -> Option<Seq<char>>
    decreases attrs.len(),
{
    if attrs.len() == 0 {
        None
    } else if attribute_sql(attrs[0]) is Some {
        attribute_sql(attrs[0])
    } else {
        attributes_sql(attrs.drop_first())
    }
}

/// The field names, in order.
pub open spec fn field_names(fields: Seq<FieldDef>) -> Seq<Seq<char>> {
    fields.map_values(|f: FieldDef| f.name@)
}

/// The texts one after another, with nothing between them.
pub open spec fn concat_all(parts: Seq<Seq<char>>) -> Seq<char>
    decreases parts.len(),
{
    if parts.len() == 0 {
        seq![]
    } else {
        concat_all(parts.drop_last()) + parts.last()
    }
}

/// The SQL of a struct without a `from_sql` attribute: `concat!("SELECT ",
/// field names..., " FROM ", struct name)`, where the names are put one
/// after another with nothing between them.
pub open spec fn default_select(names: Seq<Seq<char>>, ident: Seq<char>) -> Seq<char> {
    "SELECT "@ + concat_all(names) + " FROM "@ + ident
}

/// The view `v` with its text replaced by `value`.
pub open spec fn with_value(v: SqlView, value: Seq<char>) -> SqlView {
    SqlView { value, ..v }
}

/// What `sql()` returns for a struct with field names `names` whose
/// `from_sql` attribute gives `sql`: the SQL as written, with, where the
/// SQL with `"` replaced by `'` parses, the metadata of that text's first
/// statement; otherwise taken as a SELECT of the field names.
pub open spec fn attribute_sql_view(sql: Seq<char>, names: Seq<Seq<char>>, r: SqlView) -> bool {
    let for_parsing = replace_all(sql, seq!['"'], seq!['\'']);
    if spec_ansi_accepts(for_parsing) {
        r == with_value(
            sql_view_of(for_parsing, first_statement(spec_ansi_parse(for_parsing)->Ok_0)),
            sql,
        )
    } else {
        r == SqlView {
            value: sql,
            tables: Seq::empty(),
            columns: names,
            query_type: QueryType::Select,
            param_count: placeholder_count(sql),
        }
    }
}

/// Where the SQL of a `from_sql` attribute parses, what `sql()` returns does
/// not depend on the struct's fields: its columns are the columns its first
/// statement selects, and its tables, query type and number of placeholders
/// are those that `sql!` gives for the same text; only the text itself is
/// the attribute's SQL as written.
pub proof fn law_attribute_sql_follows_the_sql(
    sql: Seq<char>,
    names1: Seq<Seq<char>>,
    names2: Seq<Seq<char>>,
    r1: SqlView,
    r2: SqlView,
)
    requires
        spec_ansi_accepts(replace_all(sql, seq!['"'], seq!['\''])),
        attribute_sql_view(sql, names1, r1),
        attribute_sql_view(sql, names2, r2),
    ensures
        r1 == r2,
        ({
            let text = replace_all(sql, seq!['"'], seq!['\'']);
            let first = first_statement(spec_ansi_parse(text)->Ok_0);
            &&& r1.value == sql
            &&& r1.columns == sql_view_of(text, first).columns
            &&& r1.tables == sql_view_of(text, first).tables
            &&& r1.query_type == sql_view_of(text, first).query_type
            &&& r1.param_count == placeholder_count(text)
            &&& (first matches Some(st) ==> r1.columns == statement_columns(st))
        }),
{
}

// ------------------------------------------------------------------
// Executable
// ------------------------------------------------------------------

/// Turns the token text of a `from_sql` attribute back into SQL.
pub fn process_derive_sql(input: &str) -> (r: String)
    ensures
        r@ == derive_sql_text(input@),
{
    let s = chars_of(input);
    let mut r: Vec<char> = Vec::new();
    let mut i: usize = 0;
    assert(s@.skip(0) =~= s@);
    assert(r@ + derive_sql_text(s@) =~= derive_sql_text(s@));
    while i < s.len()
        invariant
            i <= s@.len(),
            derive_sql_text(input@) == r@ + derive_sql_text(s@.skip(i as int)),
            s@ == input@,
        decreases s@.len() - i,
    {
        let ghost rest = s@.skip(i as int);
        let c = s[i];
        let mut escaped: Option<char> = None;
        if c == '\\' && i + 1 < s.len() {
            let d = s[i + 1];
            if d == '"' {
                escaped = Some('"');
            } else if d == 'n' {
                escaped = Some('\n');
            } else if d == 't' {
                escaped = Some('\t');
            } else if d == '\\' {
                escaped = Some('\\');
            }
        }
        match escaped {
            Some(e) => {
                assert(rest.skip(2) =~= s@.skip(i + 2));
                r.push(e);
                i += 2;
            },
            None => {
                assert(rest.drop_first() =~= s@.skip(i + 1));
                r.push(c);
                i += 1;
            },
        }
        assert(derive_sql_text(input@) == r@ + derive_sql_text(s@.skip(i as int)));
    }
    assert(s@.skip(i as int) =~= Seq::<char>::empty());
    assert(r@ + Seq::<char>::empty() =~= r@);
    string_of(&r)
}

proof fn lemma_invocation_bounds(ts: Seq<char>)
    requires
        is_sql_invocation(ts),
    ensures
        find_char(ts, '(') matches Some(k) && k + 1 <= ts.len(),
        ({
            let start = find_char(ts, '(')->0 + 1;
            let end = match rfind_char(ts, ')') {
                Some(i) => i,
                None => ts.len() as int,
            };
            start <= end <= ts.len()
        }),
{
    let p = if starts_with(ts, seq!['s', 'q', 'l', ' ', '!', ' ', '(']) {
        6int
    } else {
        4int
    };
    assert(ts[p] == '(') by {
        if p == 6 {
            assert(ts.subrange(0, 7)[6] == '(');
        } else {
            assert(ts.subrange(0, 5)[4] == '(');
        }
    }
    assert(forall|j: int| 0 <= j < p ==> ts[j] != '(' && ts[j] != ')') by {
        if p == 6 {
            assert forall|j: int| 0 <= j < p implies ts[j] != '(' && ts[j] != ')' by {
                assert(ts.subrange(0, 7)[j] == ts[j]);
            }
        } else {
            assert forall|j: int| 0 <= j < p implies ts[j] != '(' && ts[j] != ')' by {
                assert(ts.subrange(0, 5)[j] == ts[j]);
            }
        }
    }
    lemma_find_from_found(ts, seq!['('], 0);
    assert(occurs_at(ts, seq!['('], p)) by {
        assert(ts.subrange(p, p + 1) =~= seq!['(']);
    }
    let k = find_char(ts, '(')->0;
    assert(find_char(ts, '(') is Some);
    assert(ts.subrange(k, k + 1)[0] == '(');
    assert(k == p) by {
        if k < p {
            assert(ts[k] == '(');
        }
    }
    lemma_rfind_char(ts, ')');
}

/// The SQL of `#[from_sql(sql!(...))]`, if the attribute list holds such an
/// invocation.
fn invocation_sql_exec(ts: &String) -> (r: Option<String>)
    ensures
        r matches Some(s) ==> is_sql_invocation(ts@) && s@ == invocation_sql(ts@),
        r is None ==> !is_sql_invocation(ts@),
{
    let v = chars_of(ts.as_str());
    let p1 = ['s', 'q', 'l', ' ', '!', ' ', '('];
    let p2 = ['s', 'q', 'l', '!', '('];
    proof {
        assert(p1@ =~= seq!['s', 'q', 'l', ' ', '!', ' ', '(']);
        assert(p2@ =~= seq!['s', 'q', 'l', '!', '(']);
    }
    if !starts_with_exec(&v, &p1) && !starts_with_exec(&v, &p2) {
        return None;
    }
    proof {
        lemma_invocation_bounds(v@);
    }
    let start = match find_char_exec(&v, '(') {
        Some(i) => i + 1,
        None => 1,
    };
    let end = match rfind_char_exec(&v, ')') {
        Some(i) => i,
        None => v.len(),
    };
    let content = slice_of(&v, start, end);
    let trimmed = trim_start_chars(&content);
    let s = string_of(&trimmed);
    Some(process_derive_sql(s.as_str()))
}

/// The SQL of the first `#[from_sql(sql!(...))]` attribute, if there is one.
pub fn extract_sql_from_attributes(attrs: &[AttributeDef]) -> (r: Option<String>)
    ensures
        r matches Some(s) ==> attributes_sql(attrs@) == Some(s@),
        r is None ==> attributes_sql(attrs@) is None,
{
    let mut i: usize = 0;
    assert(attrs@.skip(0) =~= attrs@);
    while i < attrs.len()
        invariant
            i <= attrs@.len(),
            attributes_sql(attrs@) == attributes_sql(attrs@.skip(i as int)),
        decreases attrs@.len() - i,
    {
        let attr = &attrs[i];
        assert(attrs@.skip(i as int)[0] == attrs@[i as int]);
        assert(attrs@.skip(i as int).drop_first() =~= attrs@.skip(i + 1));
        if attr.is_from_sql {
            match &attr.list_tokens {
                Some(ts) => {
                    match invocation_sql_exec(ts) {
                        Some(s) => {
                            return Some(s);
                        },
                        None => {},
                    }
                },
                None => {},
            }
        }
        i += 1;
    }
    None
}

/// The field names of `fields`, in order.
fn field_name_list(fields: &[FieldDef]) -> (r: Vec<String>)
    ensures
        texts(r@) == field_names(fields@),
{
    let mut r: Vec<String> = Vec::new();
    let mut i: usize = 0;
    while i < fields.len()
        invariant
            i <= fields@.len(),
            r@.len() == i,
            texts(r@) == field_names(fields@.take(i as int)),
        decreases fields@.len() - i,
    {
        let ghost before = texts(r@);
        r.push(fields[i].name.clone());
        assert(texts(r@) =~= before.push(fields@[i as int].name@));
        i += 1;
        assert(texts(r@) =~= field_names(fields@.take(i as int)));
    }
    assert(fields@.take(fields@.len() as int) =~= fields@);
    r
}

/// The reads of the generated `from_row`: field `i` from column `i`.
fn field_reads(fields: &[FieldDef]) -> (r: Vec<FieldRead>)
    ensures
        r@.len() == fields@.len(),
        forall|i: int|
            0 <= i < fields@.len() ==> {
                &&& (#[trigger] r@[i]).name@ == fields@[i].name@
                &&& r@[i].ty@ == fields@[i].ty@
                &&& r@[i].index == i
            },
{
    let mut r: Vec<FieldRead> = Vec::new();
    let mut i: usize = 0;
    while i < fields.len()
        invariant
            i <= fields@.len(),
            r@.len() == i,
            forall|j: int|
                0 <= j < i ==> {
                    &&& (#[trigger] r@[j]).name@ == fields@[j].name@
                    &&& r@[j].ty@ == fields@[j].ty@
                    &&& r@[j].index == j
                },
        decreases fields@.len() - i,
    {
        r.push(
            FieldRead { name: fields[i].name.clone(), ty: fields[i].ty.clone(), index: i },
        );
        i += 1;
    }
    r
}

/// `concat!("SELECT ", names..., " FROM ", ident)`.
fn default_select_exec(names: &[String], ident: &String) -> (r: String)
    ensures
        r@ == default_select(texts(names@), ident@),
{
    let mut v = chars_of("SELECT ");
    let ghost head = v@;
    let mut i: usize = 0;
    assert(v@ =~= head + concat_all(texts(names@).take(0)));
    while i < names.len()
        invariant
            i <= names@.len(),
            head == "SELECT "@,
            v@ == head + concat_all(texts(names@).take(i as int)),
        decreases names@.len() - i,
    {
        let n = chars_of(names[i].as_str());
        push_all(&mut v, &n);
        assert(texts(names@).take(i + 1).drop_last() =~= texts(names@).take(i as int));
        i += 1;
        assert(v@ =~= head + concat_all(texts(names@).take(i as int)));
    }
    assert(texts(names@).take(names@.len() as int) =~= texts(names@));
    let from = chars_of(" FROM ");
    push_all(&mut v, &from);
    let id = chars_of(ident.as_str());
    push_all(&mut v, &id);
    string_of(&v)
}

/// The `Sql` of `sql()` for the SQL `sql` of a `from_sql` attribute.
fn attribute_sql_exec(sql: &String, names: &Vec<String>) -> (r: Sql)
    ensures
        attribute_sql_view(sql@, texts(names@), r@),
{
    let v = chars_of(sql.as_str());
    let replaced = replace_exec(&v, &['"'], &['\'']);
    proof {
        assert(['"']@ =~= seq!['"']);
        assert(['\'']@ =~= seq!['\'']);
    }
    let for_parsing = string_of(&replaced);
    match parse_statements(for_parsing.as_str()) {
        Ok(statements) => {
            let meta = if statements.len() > 0 {
                assert(statement_views(statements@)[0] == statements@[0]@);
                extract_metadata(for_parsing.as_str(), Some(&statements[0]))
            } else {
                extract_metadata(for_parsing.as_str(), None)
            };
            let q = Sql::from_parts(
                sql.clone(),
                meta.tables,
                meta.columns,
                meta.query_type,
                meta.param_count,
            );
            if statements.len() == 0 {
                assert(q@.tables =~= Seq::<Seq<char>>::empty());
                assert(q@.columns =~= Seq::<Seq<char>>::empty());
            }
            assert(q@ == with_value(
                sql_view_of(for_parsing@, first_statement(statement_views(statements@))),
                sql@,
            ));
            q
        },
        Err(_) => {
            let param_count = count_placeholders(sql.as_str());
            let r = Sql::from_parts(
                sql.clone(),
                Vec::new(),
                copy_strings(names.as_slice()),
                QueryType::Select,
                param_count,
            );
            assert(r@.tables =~= Seq::<Seq<char>>::empty());
            r
        },
    }
}

/// What `#[derive(QueryResult)]` generates for `input`.
pub fn derive_query_result(input: &DeriveInput) -> (r: Result<QueryResultImpl, DeriveError>)
    ensures
        input.data matches DataDef::Struct(FieldsDef::Named(fields)) ==> r matches Ok(imp) && {
            let names = field_names(fields@);
            &&& imp.struct_name@ == input.ident@
            &&& texts(imp.columns@) == names
            &&& imp.reads@.len() == fields@.len()
            &&& forall|i: int|
                0 <= i < fields@.len() ==> {
                    &&& (#[trigger] imp.reads@[i]).name@ == fields@[i].name@
                    &&& imp.reads@[i].ty@ == fields@[i].ty@
                    &&& imp.reads@[i].index == i
                }
            &&& match attributes_sql(input.attrs@) {
                None => imp.sql@ == Sql::plain(default_select(names, input.ident@)),
                Some(sql) => attribute_sql_view(sql, names, imp.sql@),
            }
        },
        input.data matches DataDef::Struct(FieldsDef::Unnamed) ==> r == Err::<
            QueryResultImpl,
            DeriveError,
        >(DeriveError::TupleStruct),
        input.data matches DataDef::Struct(FieldsDef::Unit) ==> r == Err::<
            QueryResultImpl,
            DeriveError,
        >(DeriveError::UnitStruct),
        !(input.data is Struct) ==> r == Err::<QueryResultImpl, DeriveError>(
            DeriveError::NotAStruct,
        ),
{
    let sql_from_attr = extract_sql_from_attributes(input.attrs.as_slice());
    match &input.data {
        DataDef::Struct(FieldsDef::Named(fields)) => {
            let columns = field_name_list(fields.as_slice());
            let reads = field_reads(fields.as_slice());
            let sql = match &sql_from_attr {
                Some(s) => attribute_sql_exec(s, &columns),
                None => {
                    let text = default_select_exec(columns.as_slice(), &input.ident);
                    Sql::new(text.as_str())
                },
            };
            Ok(QueryResultImpl { struct_name: input.ident.clone(), reads, columns, sql })
        },
        DataDef::Struct(FieldsDef::Unnamed) => Err(DeriveError::TupleStruct),
        DataDef::Struct(FieldsDef::Unit) => Err(DeriveError::UnitStruct),
        _ => Err(DeriveError::NotAStruct),
    }
}

impl DeriveError {
    /// The compile error that the derive reports.
    pub fn message(&self) -> (r: String)
        ensures
            *self == DeriveError::TupleStruct ==> r@
                == "QueryResult does not support tuple structs"@,
            *self == DeriveError::UnitStruct ==> r@ == "QueryResult does not support unit structs"@,
            *self == DeriveError::NotAStruct ==> r@ == "QueryResult only supports named structs"@,
    {
        match self {
            DeriveError::TupleStruct => "QueryResult does not support tuple structs".to_owned(),
            DeriveError::UnitStruct => "QueryResult does not support unit structs".to_owned(),
            DeriveError::NotAStruct => "QueryResult only supports named structs".to_owned(),
        }
    }
}

} // verus!
