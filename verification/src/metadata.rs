//! Metadata of a parsed SQL statement: the query type, the tables it refers
//! to, the columns it selects and the number of `?` placeholders.
//!
//! The statement is described by `StatementSummary`, which holds as plain
//! values the parts of a parsed statement that the metadata is read from:
//! the kind of statement, the names of the objects it names, its FROM
//! entries and its SELECT items. Each of these types has a view of
//! sequences of characters, over which the metadata is specified.
use vstd::prelude::*;

use crate::sql::{QueryType, Sql, texts};
use crate::text::{chars_of, string_of};

verus! {

// ------------------------------------------------------------------
// The model of a parsed statement
// ------------------------------------------------------------------

/// An item of a SELECT list.
pub enum ProjectionItem {
    /// A bare column name: `name`.
    Identifier(String),
    /// A qualified column name: `t.name`, as its parts.
    CompoundIdentifier(Vec<String>),
    /// An expression with an alias: `expr AS alias`.
    Alias(String),
    /// `*` or `t.*`.
    Wildcard,
    /// Anything else.
    Other,
}

/// An entry of a FROM clause: its relation and the relations it is joined
/// with. A relation is `Some(name)` where it is a named table.
pub struct FromEntry {
    pub relation: Option<String>,
    pub joins: Vec<Option<String>>,
}

/// The parts of a plain SELECT that the metadata is read from.
pub struct SelectSummary {
    pub from: Vec<FromEntry>,
    pub projection: Vec<ProjectionItem>,
}

/// The body of a query.
pub enum QueryBody {
    /// A plain SELECT.
    Select(SelectSummary),
    /// A parenthesized query, with its own body.
    Nested(Box<QueryBody>),
    /// A set operation (UNION, EXCEPT, INTERSECT) of two bodies.
    SetOperation(Box<QueryBody>, Box<QueryBody>),
    /// Anything else (VALUES, TABLE, ...).
    Other,
}

/// A parsed statement, as far as its metadata goes.
pub enum StatementSummary {
    /// A query, with its body.
    Query(QueryBody),
    /// An INSERT into the named table.
    Insert(String),
    /// An UPDATE of the named relation.
    Update(String),
    /// A DELETE: the tables named before its FROM (in a multi-table
    /// DELETE), and the entries of its FROM clause.
    Delete(Vec<String>, Vec<FromEntry>),
    /// A CREATE TABLE of the named table.
    CreateTable(String),
    /// A DROP of the named objects.
    Drop(Vec<String>),
    /// Any other statement.
    Other,
}

/// Metadata extracted from SQL.
pub struct SqlMetadata {
    pub sql: String,
    pub tables: Vec<String>,
    pub columns: Vec<String>,
    pub query_type: QueryType,
    pub param_count: usize,
}

// ------------------------------------------------------------------
// Views
// ------------------------------------------------------------------

/// What a `ProjectionItem` stands for.
pub enum ItemView {
    Identifier(Seq<char>),
    CompoundIdentifier(Seq<Seq<char>>),
    Alias(Seq<char>),
    Wildcard,
    Other,
}

/// What a `FromEntry` stands for.
pub struct EntryView {
    pub relation: Option<Seq<char>>,
    pub joins: Seq<Option<Seq<char>>>,
}

/// What a `SelectSummary` stands for.
pub struct SelectView {
    pub from: Seq<EntryView>,
    pub projection: Seq<ItemView>,
}

/// What a `QueryBody` stands for.
pub enum BodyView {
    Select(SelectView),
    Nested(Box<BodyView>),
    SetOperation(Box<BodyView>, Box<BodyView>),
    Other,
}

/// What a `StatementSummary` stands for.
pub enum StatementView {
    Query(BodyView),
    Insert(Seq<char>),
    Update(Seq<char>),
    Delete(Seq<Seq<char>>, Seq<EntryView>),
    CreateTable(Seq<char>),
    Drop(Seq<Seq<char>>),
    Other,
}

/// The text of an optional name.
pub open spec fn opt_text(n: Option<String>) -> Option<Seq<char>> {
    match n {
        Some(s) => Some(s@),
        None => None,
    }
}

impl View for ProjectionItem {
    type V = ItemView;

    open spec fn view(&self) -> ItemView {
        match self {
            ProjectionItem::Identifier(n) => ItemView::Identifier(n@),
            ProjectionItem::CompoundIdentifier(parts) => ItemView::CompoundIdentifier(
                texts(parts@),
            ),
            ProjectionItem::Alias(a) => ItemView::Alias(a@),
            ProjectionItem::Wildcard => ItemView::Wildcard,
            ProjectionItem::Other => ItemView::Other,
        }
    }
}

impl View for FromEntry {
    type V = EntryView;

    open spec fn view(&self) -> EntryView {
        EntryView {
            relation: opt_text(self.relation),
            joins: self.joins@.map_values(|j: Option<String>| opt_text(j)),
        }
    }
}

/// The views of a list of FROM entries.
pub open spec fn entry_views(v: Seq<FromEntry>) -> Seq<EntryView> {
    v.map_values(|e: FromEntry| e@)
}

/// The views of a list of SELECT items.
pub open spec fn item_views(v: Seq<ProjectionItem>) -> Seq<ItemView> {
    v.map_values(|i: ProjectionItem| i@)
}

impl View for SelectSummary {
    type V = SelectView;

    open spec fn view(&self) -> SelectView {
        SelectView { from: entry_views(self.from@), projection: item_views(self.projection@) }
    }
}

/// The view of a query body.
pub open spec fn body_view(b: QueryBody) -> BodyView
    decreases b,
{
    match b {
        QueryBody::Select(s) => BodyView::Select(s@),
        QueryBody::Nested(inner) => BodyView::Nested(Box::new(body_view(*inner))),
        QueryBody::SetOperation(l, r) => BodyView::SetOperation(
            Box::new(body_view(*l)),
            Box::new(body_view(*r)),
        ),
        QueryBody::Other => BodyView::Other,
    }
}

impl View for QueryBody {
    type V = BodyView;

    open spec fn view(&self) -> BodyView {
        body_view(*self)
    }
}

impl View for StatementSummary {
    type V = StatementView;

    open spec fn view(&self) -> StatementView {
        match self {
            StatementSummary::Query(b) => StatementView::Query(b@),
            StatementSummary::Insert(t) => StatementView::Insert(t@),
            StatementSummary::Update(t) => StatementView::Update(t@),
            StatementSummary::Delete(tables, from) => StatementView::Delete(
                texts(tables@),
                entry_views(from@),
            ),
            StatementSummary::CreateTable(t) => StatementView::CreateTable(t@),
            StatementSummary::Drop(ts) => StatementView::Drop(texts(ts@)),
            StatementSummary::Other => StatementView::Other,
        }
    }
}

/// The views of a list of statements.
pub open spec fn statement_views(v: Seq<StatementSummary>) -> Seq<StatementView> {
    v.map_values(|s: StatementSummary| s@)
}

/// The first of a list of statements, if there is one.
pub open spec fn first_statement(v: Seq<StatementView>) -> Option<StatementView> {
    if v.len() > 0 {
        Some(v[0])
    } else {
        None
    }
}

// ------------------------------------------------------------------
// Specifications
// ------------------------------------------------------------------

/// The names of the named relations among `rels`, in order.
pub open spec fn named(rels: Seq<Option<Seq<char>>>) -> Seq<Seq<char>>
    decreases rels.len(),
{
    if rels.len() == 0 {
        seq![]
    } else {
        named(rels.drop_last()) + match rels.last() {
            Some(n) => seq![n],
            None => seq![],
        }
    }
}

/// The tables of one FROM entry: its relation, then its joined relations.
pub open spec fn entry_tables(e: EntryView) -> Seq<Seq<char>> {
    let rel: Seq<Seq<char>> = match e.relation {
        Some(n) => seq![n],
        None => seq![],
    };
    rel + named(e.joins)
}

/// The tables of a FROM clause, entry by entry.
pub open spec fn from_tables(from: Seq<EntryView>) -> Seq<Seq<char>>
    decreases from.len(),
{
    if from.len() == 0 {
        seq![]
    } else {
        from_tables(from.drop_last()) + entry_tables(from.last())
    }
}

/// The column named by one SELECT item, if it names one: the last part of
/// a qualified name, and `*` for a wildcard.
pub open spec fn item_columns(item: ItemView) -> Seq<Seq<char>> {
    match item {
        ItemView::Identifier(n) => seq![n],
        ItemView::CompoundIdentifier(parts) => if parts.len() > 0 {
            seq![parts.last()]
        } else {
            seq![]
        },
        ItemView::Alias(a) => seq![a],
        ItemView::Wildcard => seq![seq!['*']],
        ItemView::Other => seq![],
    }
}

/// The columns named by a SELECT list, in order.
pub open spec fn projection_columns(items: Seq<ItemView>) -> Seq<Seq<char>>
    decreases items.len(),
{
    if items.len() == 0 {
        seq![]
    } else {
        projection_columns(items.drop_last()) + item_columns(items.last())
    }
}

/// The tables a query body refers to: those of the FROM clause of each
/// SELECT in it, left to right through nested queries and set operations.
pub open spec fn body_tables(b: BodyView) -> Seq<Seq<char>>
    decreases b,
{
    match b {
        BodyView::Select(s) => from_tables(s.from),
        BodyView::Nested(inner) => body_tables(*inner),
        BodyView::SetOperation(l, r) => body_tables(*l) + body_tables(*r),
        BodyView::Other => seq![],
    }
}

/// The columns a query body returns: those of its SELECT list; for a set
/// operation, those of its left operand, which name the result's columns.
pub open spec fn body_columns(b: BodyView) -> Seq<Seq<char>>
    decreases b,
{
    match b {
        BodyView::Select(s) => projection_columns(s.projection),
        BodyView::Nested(inner) => body_columns(*inner),
        BodyView::SetOperation(l, _) => body_columns(*l),
        BodyView::Other => seq![],
    }
}

/// The query type of a statement.
pub open spec fn statement_type(s: StatementView) -> QueryType {
    match s {
        StatementView::Query(_) => QueryType::Select,
        StatementView::Insert(_) => QueryType::Insert,
        StatementView::Update(_) => QueryType::Update,
        StatementView::Delete(_, _) => QueryType::Delete,
        StatementView::CreateTable(_) => QueryType::Create,
        StatementView::Drop(_) => QueryType::Drop,
        StatementView::Other => QueryType::Other,
    }
}

/// The tables a statement refers to; for a DELETE, the tables named before
/// its FROM where there are any (a multi-table DELETE deletes from those),
/// otherwise those of its FROM clause.
pub open spec fn statement_tables(s: StatementView) -> Seq<Seq<char>> {
    match s {
        StatementView::Query(b) => body_tables(b),
        StatementView::Insert(t) => seq![t],
        StatementView::Update(t) => seq![t],
        StatementView::Delete(tables, from) => if tables.len() > 0 {
            tables
        } else {
            from_tables(from)
        },
        StatementView::CreateTable(t) => seq![t],
        StatementView::Drop(ts) => ts,
        StatementView::Other => seq![],
    }
}

/// The columns a statement selects: those of a query, none otherwise.
pub open spec fn statement_columns(s: StatementView) -> Seq<Seq<char>> {
    match s {
        StatementView::Query(b) => body_columns(b),
        _ => seq![],
    }
}

/// The `?` placeholders of `s` from position `i` on, where `quote` is the
/// quote character of the quoted text (string or quoted identifier) open at
/// `i`, if any: a `?` inside quotes is text, not a placeholder.
pub open spec fn placeholders_from(s: Seq<char>, i: int, quote: Option<char>) -> nat
    decreases s.len() - i,
{
    if i < 0 || i >= s.len() {
        0
    } else {
        let c = s[i];
        match quote {
            None => if c == '?' {
                1 + placeholders_from(s, i + 1, None)
            } else if c == '\'' || c == '"' {
                placeholders_from(s, i + 1, Some(c))
            } else {
                placeholders_from(s, i + 1, None)
            },
            Some(q) => if c == q {
                placeholders_from(s, i + 1, None)
            } else {
                placeholders_from(s, i + 1, Some(q))
            },
        }
    }
}

/// The number of `?` placeholders of `s`: the `?` outside quoted text.
pub open spec fn placeholder_count(s: Seq<char>) -> nat {
    placeholders_from(s, 0, None)
}

// ------------------------------------------------------------------
// Executable extraction
// ------------------------------------------------------------------

proof fn lemma_placeholders_bound(s: Seq<char>, i: int, quote: Option<char>)
    requires
        0 <= i <= s.len(),
    ensures
        placeholders_from(s, i, quote) <= s.len() - i,
    decreases s.len() - i,
{
    if i < s.len() {
        let c = s[i];
        match quote {
            None => if c == '\'' || c == '"' {
                lemma_placeholders_bound(s, i + 1, Some(c));
            } else {
                lemma_placeholders_bound(s, i + 1, None);
            },
            Some(q) => if c == q {
                lemma_placeholders_bound(s, i + 1, None);
            } else {
                lemma_placeholders_bound(s, i + 1, Some(q));
            },
        }
    }
}

/// Counts the `?` placeholders in `sql`: the `?` outside quoted text.
pub fn count_placeholders(sql: &str) -> (r: usize)
    ensures
        r == placeholder_count(sql@),
{
    let v = chars_of(sql);
    let mut quote: Option<char> = None;
    let mut count: usize = 0;
    let mut i: usize = 0;
    proof {
        lemma_placeholders_bound(v@, 0, None);
    }
    while i < v.len()
        invariant
            i <= v@.len(),
            v@ == sql@,
            count + placeholders_from(v@, i as int, quote) == placeholders_from(v@, 0, None),
            placeholders_from(v@, 0, None) <= v@.len(),
        decreases v@.len() - i,
    {
        let c = v[i];
        match quote {
            None => {
                if c == '?' {
                    count = count + 1;
                } else if c == '\'' || c == '"' {
                    quote = Some(c);
                }
            },
            Some(q) => {
                if c == q {
                    quote = None;
                }
            },
        }
        i = i + 1;
    }
    count
}

/// Pushes the names of the named relations among `rels` onto `out`.
fn push_named(rels: &[Option<String>], out: &mut Vec<String>)
    ensures
        texts(final(out)@) == texts(old(out)@) + named(
            rels@.map_values(|j: Option<String>| opt_text(j)),
        ),
{
    let ghost vs = rels@.map_values(|j: Option<String>| opt_text(j));
    let mut i: usize = 0;
    while i < rels.len()
        invariant
            i <= rels@.len(),
            vs == rels@.map_values(|j: Option<String>| opt_text(j)),
            texts(out@) == texts(old(out)@) + named(vs.take(i as int)),
        decreases rels@.len() - i,
    {
        assert(vs.take(i + 1).drop_last() =~= vs.take(i as int));
        assert(vs.take(i + 1).last() == opt_text(rels@[i as int]));
        let ghost before = texts(out@);
        match &rels[i] {
            Some(n) => {
                out.push(n.clone());
                assert(texts(out@) =~= before.push(n@));
            },
            None => {},
        }
        i += 1;
        assert(texts(out@) =~= texts(old(out)@) + named(vs.take(i as int)));
    }
    assert(vs.take(rels@.len() as int) =~= vs);
}

/// Pushes the strings of `v` onto `out`.
fn push_strings(v: &[String], out: &mut Vec<String>)
    ensures
        texts(final(out)@) == texts(old(out)@) + texts(v@),
{
    let mut i: usize = 0;
    while i < v.len()
        invariant
            i <= v@.len(),
            texts(out@) == texts(old(out)@) + texts(v@.take(i as int)),
        decreases v@.len() - i,
    {
        let ghost before = texts(out@);
        out.push(v[i].clone());
        assert(texts(out@) =~= before.push(v@[i as int]@));
        i += 1;
        assert(texts(out@) =~= texts(old(out)@) + texts(v@.take(i as int)));
    }
    assert(v@.take(v@.len() as int) =~= v@);
}

/// Pushes the tables of the FROM entries `from` onto `tables`.
fn push_from_tables(from: &[FromEntry], tables: &mut Vec<String>)
    ensures
        texts(final(tables)@) == texts(old(tables)@) + from_tables(entry_views(from@)),
{
    let ghost fv = entry_views(from@);
    let mut i: usize = 0;
    while i < from.len()
        invariant
            i <= from@.len(),
            fv == entry_views(from@),
            texts(tables@) == texts(old(tables)@) + from_tables(fv.take(i as int)),
        decreases from@.len() - i,
    {
        let entry = &from[i];
        assert(fv.take(i + 1).drop_last() =~= fv.take(i as int));
        assert(fv.take(i + 1).last() == entry@);
        let ghost before = texts(tables@);
        match &entry.relation {
            Some(n) => {
                tables.push(n.clone());
                assert(texts(tables@) =~= before + seq![n@]);
            },
            None => {
                assert(texts(tables@) =~= before + Seq::<Seq<char>>::empty());
            },
        }
        push_named(entry.joins.as_slice(), tables);
        i += 1;
        assert(texts(tables@) =~= texts(old(tables)@) + from_tables(fv.take(i as int)));
    }
    assert(fv.take(from@.len() as int) =~= fv);
}

/// Pushes the columns named by the SELECT items `items` onto `columns`.
fn push_projection_columns(items: &[ProjectionItem], columns: &mut Vec<String>)
    ensures
        texts(final(columns)@) == texts(old(columns)@) + projection_columns(item_views(items@)),
{
    let ghost iv = item_views(items@);
    let mut j: usize = 0;
    while j < items.len()
        invariant
            j <= items@.len(),
            iv == item_views(items@),
            texts(columns@) == texts(old(columns)@) + projection_columns(iv.take(j as int)),
        decreases items@.len() - j,
    {
        assert(iv.take(j + 1).drop_last() =~= iv.take(j as int));
        assert(iv.take(j + 1).last() == items@[j as int]@);
        let ghost before = texts(columns@);
        match &items[j] {
            ProjectionItem::Identifier(n) => {
                columns.push(n.clone());
                assert(texts(columns@) =~= before + seq![n@]);
            },
            ProjectionItem::CompoundIdentifier(parts) => {
                if parts.len() > 0 {
                    columns.push(parts[parts.len() - 1].clone());
                    assert(texts(parts@).last() == parts@.last()@);
                    assert(texts(columns@) =~= before + seq![parts@.last()@]);
                } else {
                    assert(texts(columns@) =~= before + Seq::<Seq<char>>::empty());
                }
            },
            ProjectionItem::Alias(a) => {
                columns.push(a.clone());
                assert(texts(columns@) =~= before + seq![a@]);
            },
            ProjectionItem::Wildcard => {
                let star = ['*'];
                let s = string_of(&star);
                assert(star@ =~= seq!['*']);
                columns.push(s);
                assert(texts(columns@) =~= before + seq![seq!['*']]);
            },
            ProjectionItem::Other => {
                assert(texts(columns@) =~= before + Seq::<Seq<char>>::empty());
            },
        }
        j += 1;
        assert(texts(columns@) =~= texts(old(columns)@) + projection_columns(iv.take(j as int)));
    }
    assert(iv.take(items@.len() as int) =~= iv);
}

/// Pushes the tables named in the FROM clause of `select`, and the columns
/// named by its SELECT list, onto `tables` and `columns`.
pub fn extract_select_metadata(
    select: &SelectSummary,
    tables: &mut Vec<String>,
    columns: &mut Vec<String>,
)
    ensures
        texts(final(tables)@) == texts(old(tables)@) + from_tables(select@.from),
        texts(final(columns)@) == texts(old(columns)@) + projection_columns(select@.projection),
{
    push_from_tables(select.from.as_slice(), tables);
    push_projection_columns(select.projection.as_slice(), columns);
}

/// Pushes the tables of a query body onto `tables`.
fn push_body_tables(b: &QueryBody, tables: &mut Vec<String>)
    ensures
        texts(final(tables)@) == texts(old(tables)@) + body_tables(b@),
    decreases b,
{
    match b {
        QueryBody::Select(s) => {
            push_from_tables(s.from.as_slice(), tables);
        },
        QueryBody::Nested(inner) => {
            push_body_tables(inner, tables);
        },
        QueryBody::SetOperation(l, r) => {
            let ghost before = texts(tables@);
            push_body_tables(l, tables);
            push_body_tables(r, tables);
            assert(texts(tables@) =~= before + (body_tables(l@) + body_tables(r@)));
        },
        QueryBody::Other => {
            assert(texts(tables@) =~= texts(old(tables)@) + Seq::<Seq<char>>::empty());
        },
    }
}

/// Pushes the columns of a query body onto `columns`.
fn push_body_columns(b: &QueryBody, columns: &mut Vec<String>)
    ensures
        texts(final(columns)@) == texts(old(columns)@) + body_columns(b@),
    decreases b,
{
    match b {
        QueryBody::Select(s) => {
            push_projection_columns(s.projection.as_slice(), columns);
        },
        QueryBody::Nested(inner) => {
            push_body_columns(inner, columns);
        },
        QueryBody::SetOperation(l, _) => {
            push_body_columns(l, columns);
        },
        QueryBody::Other => {
            assert(texts(columns@) =~= texts(old(columns)@) + Seq::<Seq<char>>::empty());
        },
    }
}

/// Extracts the metadata of `sql`, whose first statement (if there is one)
/// is `first`.
pub fn extract_metadata(sql: &str, first: Option<&StatementSummary>) -> (r: SqlMetadata)
    ensures
        r.sql@ == sql@,
        r.param_count == placeholder_count(sql@),
        first matches Some(s) ==> {
            &&& r.query_type == statement_type(s@)
            &&& texts(r.tables@) == statement_tables(s@)
            &&& texts(r.columns@) == statement_columns(s@)
        },
        first is None ==> {
            &&& r.query_type == QueryType::Other
            &&& r.tables@.len() == 0
            &&& r.columns@.len() == 0
        },
{
    let mut tables: Vec<String> = Vec::new();
    let mut columns: Vec<String> = Vec::new();
    let mut query_type = QueryType::Other;
    let param_count = count_placeholders(sql);
    assert(texts(tables@) =~= Seq::<Seq<char>>::empty());
    assert(texts(columns@) =~= Seq::<Seq<char>>::empty());
    match first {
        Some(stmt) => match stmt {
            StatementSummary::Query(body) => {
                query_type = QueryType::Select;
                push_body_tables(body, &mut tables);
                push_body_columns(body, &mut columns);
                assert(texts(tables@) =~= body_tables(body@));
                assert(texts(columns@) =~= body_columns(body@));
            },
            StatementSummary::Insert(t) => {
                query_type = QueryType::Insert;
                tables.push(t.clone());
                assert(texts(tables@) =~= seq![t@]);
            },
            StatementSummary::Update(t) => {
                query_type = QueryType::Update;
                tables.push(t.clone());
                assert(texts(tables@) =~= seq![t@]);
            },
            StatementSummary::Delete(named, from) => {
                query_type = QueryType::Delete;
                if named.len() > 0 {
                    push_strings(named.as_slice(), &mut tables);
                    assert(texts(tables@) =~= texts(named@));
                } else {
                    push_from_tables(from.as_slice(), &mut tables);
                    assert(texts(tables@) =~= from_tables(entry_views(from@)));
                }
            },
            StatementSummary::CreateTable(t) => {
                query_type = QueryType::Create;
                tables.push(t.clone());
                assert(texts(tables@) =~= seq![t@]);
            },
            StatementSummary::Drop(ts) => {
                query_type = QueryType::Drop;
                push_strings(ts.as_slice(), &mut tables);
                assert(texts(tables@) =~= texts(ts@));
            },
            StatementSummary::Other => {},
        },
        None => {},
    }
    SqlMetadata { sql: sql.to_owned(), tables, columns, query_type, param_count }
}

/// The `Sql` value that carries `meta`.
pub fn sql_from_metadata(meta: SqlMetadata) -> (r: Sql)
    ensures
        r@.value == meta.sql@,
        r@.tables == texts(meta.tables@),
        r@.columns == texts(meta.columns@),
        r@.query_type == meta.query_type,
        r@.param_count == meta.param_count,
{
    Sql::from_parts(meta.sql, meta.tables, meta.columns, meta.query_type, meta.param_count)
}

/// Every named relation is kept, in order: a named relation added at the
/// end adds its name at the end, an unnamed one adds nothing, and where every
/// relation is named, the names are exactly the relations' names, one for
/// each.
pub proof fn law_named_keeps_every_name(rels: Seq<Option<Seq<char>>>, n: Seq<char>)
    ensures
        named(rels.push(Some(n))) == named(rels).push(n),
        named(rels.push(None)) == named(rels),
        named(rels).len() <= rels.len(),
        (forall|i: int| 0 <= i < rels.len() ==> (#[trigger] rels[i]) is Some) ==> {
            &&& named(rels).len() == rels.len()
            &&& forall|i: int| 0 <= i < rels.len() ==> named(rels)[i] == (#[trigger] rels[i])->0
        },
{
    assert(rels.push(Some(n)).drop_last() =~= rels);
    assert(rels.push(None).drop_last() =~= rels);
    assert(named(rels) + seq![n] =~= named(rels).push(n));
    assert(named(rels) + Seq::<Seq<char>>::empty() =~= named(rels));
    lemma_named_all(rels);
}

proof fn lemma_named_all(rels: Seq<Option<Seq<char>>>)
    ensures
        named(rels).len() <= rels.len(),
        (forall|i: int| 0 <= i < rels.len() ==> (#[trigger] rels[i]) is Some) ==> {
            &&& named(rels).len() == rels.len()
            &&& forall|i: int| 0 <= i < rels.len() ==> named(rels)[i] == (#[trigger] rels[i])->0
        },
    decreases rels.len(),
{
    if rels.len() > 0 {
        let d = rels.drop_last();
        lemma_named_all(d);
        if forall|i: int| 0 <= i < rels.len() ==> (#[trigger] rels[i]) is Some {
            assert forall|i: int| 0 <= i < d.len() implies (#[trigger] d[i]) is Some by {
                assert(d[i] == rels[i]);
            }
            assert(rels[rels.len() - 1] is Some);
            assert forall|i: int| 0 <= i < rels.len() implies named(rels)[i] == (
            #[trigger] rels[i])->0 by {
                if i < rels.len() - 1 {
                    assert(d[i] == rels[i]);
                }
            }
        }
    }
}

/// A FROM entry whose relation and joined relations are all named tables
/// refers to its relation first, then to each joined table in order: one
/// table more than it has joins.
pub proof fn law_entry_tables_count_every_join(r: Seq<char>, joins: Seq<Option<Seq<char>>>)
    requires
        forall|i: int| 0 <= i < joins.len() ==> (#[trigger] joins[i]) is Some,
    ensures
        entry_tables(EntryView { relation: Some(r), joins }).len() == 1 + joins.len(),
        entry_tables(EntryView { relation: Some(r), joins })[0] == r,
        forall|i: int|
            0 <= i < joins.len() ==> entry_tables(EntryView { relation: Some(r), joins })[i + 1]
                == (#[trigger] joins[i])->0,
{
    lemma_named_all(joins);
}

/// Only a query has columns: the metadata of any other statement names none.
pub proof fn law_columns_only_for_select(s: StatementView)
    ensures
        statement_type(s) != QueryType::Select ==> statement_columns(s).len() == 0,
{
}

/// A set operation refers to the tables of both of its sides: those of the
/// left side, then those of the right side.
pub proof fn law_set_operation_tables(l: BodyView, r: BodyView)
    ensures
        body_tables(BodyView::SetOperation(Box::new(l), Box::new(r))) == body_tables(l)
            + body_tables(r),
{
}

} // verus!
