//! The `Sql` type: a SQL string with the metadata extracted from it.
use vstd::prelude::*;

use crate::text::{same_text, string_of};

verus! {

/// The type of SQL query.
#[derive(Debug, Clone, Copy, PartialEq, Eq, Hash, Structural)]
pub enum QueryType {
    Select,
    Insert,
    Update,
    Delete,
    Create,
    Drop,
    Other,
}

/// A query type that modifies data: INSERT, UPDATE, DELETE and DROP.
pub open spec fn is_mutating_type(t: QueryType) -> bool {
    t == QueryType::Insert || t == QueryType::Update || t == QueryType::Delete
        || t == QueryType::Drop
}

/// What a `Sql` value stands for.
pub struct SqlView {
    pub value: Seq<char>,
    pub tables: Seq<Seq<char>>,
    pub columns: Seq<Seq<char>>,
    pub query_type: QueryType,
    pub param_count: nat,
}

/// The text of a string slice.
pub open spec fn str_text(s: &str) -> Seq<char> {
    s@
}

/// The bytes of a byte slice.
pub open spec fn byte_seq(b: &[u8]) -> Seq<u8> {
    b@
}

/// The texts of a list of strings.
pub open spec fn texts(v: Seq<String>) -> Seq<Seq<char>> {
    v.map_values(|s: String| s@)
}

/// The texts of a list of string slices.
pub open spec fn str_texts(v: Seq<&str>) -> Seq<Seq<char>> {
    v.map_values(|s: &str| s@)
}

/// A SQL string with introspection metadata: the tables it refers to, the
/// columns it selects, its query type and its number of `?` placeholders.
#[derive(Debug, PartialEq, Eq, Hash)]
pub struct Sql {
    value: String,
    tables: Vec<String>,
    columns: Vec<String>,
    query_type: QueryType,
    param_count: usize,
}

impl View for Sql {
    type V = SqlView;

    closed spec fn view(&self) -> SqlView {
        SqlView {
            value: self.value@,
            tables: texts(self.tables@),
            columns: texts(self.columns@),
            query_type: self.query_type,
            param_count: self.param_count as nat,
        }
    }
}

/// A copy of a list of strings.
pub fn copy_strings(v: &[String]) -> (r: Vec<String>)
    ensures
        texts(r@) == texts(v@),
{
    let mut r: Vec<String> = Vec::new();
    let mut i: usize = 0;
    while i < v.len()
        invariant
            i <= v@.len(),
            r@.len() == i,
            texts(r@) == texts(v@.take(i as int)),
        decreases v@.len() - i,
    {
        let ghost old_r = r@;
        let s = v[i].clone();
        r.push(s);
        assert forall|j: int| 0 <= j < i + 1 implies #[trigger] texts(r@)[j] == texts(
            v@.take(i + 1),
        )[j] by {
            if j < i {
                assert(texts(old_r)[j] == texts(v@.take(i as int))[j]);
            }
        }
        i += 1;
        assert(texts(r@) =~= texts(v@.take(i as int)));
    }
    assert(v@.take(v@.len() as int) =~= v@);
    r
}

/// Owned copies of a list of string slices.
pub fn own_strs(v: &[&str]) -> (r: Vec<String>)
    ensures
        texts(r@) == str_texts(v@),
{
    let mut r: Vec<String> = Vec::new();
    let mut i: usize = 0;
    while i < v.len()
        invariant
            i <= v@.len(),
            r@.len() == i,
            texts(r@) == str_texts(v@.take(i as int)),
        decreases v@.len() - i,
    {
        let ghost old_r = r@;
        let s: &str = v[i];
        r.push(s.to_owned());
        assert forall|j: int| 0 <= j < i + 1 implies #[trigger] texts(r@)[j] == str_texts(
            v@.take(i + 1),
        )[j] by {
            if j < i {
                assert(texts(old_r)[j] == str_texts(v@.take(i as int))[j]);
            }
        }
        i += 1;
        assert(texts(r@) =~= str_texts(v@.take(i as int)));
    }
    assert(v@.take(v@.len() as int) =~= v@);
    r
}

impl Sql {
    /// The view of a `Sql` that carries no metadata.
    pub open spec fn plain(value: Seq<char>) -> SqlView {
        SqlView {
            value,
            tables: Seq::empty(),
            columns: Seq::empty(),
            query_type: QueryType::Other,
            param_count: 0,
        }
    }

    /// Creates a `Sql` from a string, without any metadata.
    ///
    /// This does not validate the SQL.
    pub fn new(sql: &str) -> (r: Sql)
        ensures
            r@ == Sql::plain(sql@),
    {
        let r = Sql {
            value: sql.to_owned(),
            tables: Vec::new(),
            columns: Vec::new(),
            query_type: QueryType::Other,
            param_count: 0,
        };
        assert(r@.tables =~= Seq::<Seq<char>>::empty());
        assert(r@.columns =~= Seq::<Seq<char>>::empty());
        r
    }

    /// Creates a `Sql` with full metadata.
    pub fn new_with_metadata(
        sql: &str,
        tables: &[&str],
        columns: &[&str],
        query_type: QueryType,
        param_count: usize,
    ) -> (r: Sql)
        ensures
            r@ == (SqlView {
                value: sql@,
                tables: str_texts(tables@),
                columns: str_texts(columns@),
                query_type,
                param_count: param_count as nat,
            }),
    {
        Sql {
            value: sql.to_owned(),
            tables: own_strs(tables),
            columns: own_strs(columns),
            query_type,
            param_count,
        }
    }

    /// Creates a `Sql` from owned parts.
    pub(crate) fn from_parts(
        value: String,
        tables: Vec<String>,
        columns: Vec<String>,
        query_type: QueryType,
        param_count: usize,
    ) -> (r: Sql)
        ensures
            r@ == (SqlView {
                value: value@,
                tables: texts(tables@),
                columns: texts(columns@),
                query_type,
                param_count: param_count as nat,
            }),
    {
        Sql { value, tables, columns, query_type, param_count }
    }

    /// Creates a `Sql` from a string, without any metadata (the form used
    /// for constants).
    pub fn new_const(sql: &str) -> (r: Sql)
        ensures
            r@ == Sql::plain(sql@),
    {
        Sql::new(sql)
    }

    /// The SQL text.
    pub fn as_str(&self) -> (r: &str)
        ensures
            r@ == self@.value,
    {
        self.value.as_str()
    }

    /// The SQL text, as an owned string.
    pub fn to_string(&self) -> (r: String)
        ensures
            r@ == self@.value,
    {
        self.value.clone()
    }

    /// The SQL text, consuming the `Sql`.
    pub fn into_inner(self) -> (r: String)
        ensures
            r@ == self@.value,
    {
        self.value
    }

    /// The tables referenced in the query.
    pub fn tables(&self) -> (r: &[String])
        ensures
            texts(r@) == self@.tables,
    {
        self.tables.as_slice()
    }

    /// The columns selected or returned (for SELECT queries).
    pub fn columns(&self) -> (r: &[String])
        ensures
            texts(r@) == self@.columns,
    {
        self.columns.as_slice()
    }

    /// The query type.
    pub fn query_type(&self) -> (r: QueryType)
        ensures
            r == self@.query_type,
    {
        self.query_type
    }

    /// Whether this is a SELECT query.
    pub fn is_select(&self) -> (r: bool)
        ensures
            r == (self@.query_type == QueryType::Select),
    {
        self.query_type == QueryType::Select
    }

    /// Whether this query modifies data (INSERT, UPDATE, DELETE or DROP).
    pub fn is_mutating(&self) -> (r: bool)
        ensures
            r == is_mutating_type(self@.query_type),
    {
        self.query_type == QueryType::Insert || self.query_type == QueryType::Update
            || self.query_type == QueryType::Delete || self.query_type == QueryType::Drop
    }

    /// The number of `?` placeholders.
    pub fn param_count(&self) -> (r: usize)
        ensures
            r == self@.param_count,
    {
        self.param_count
    }

    /// Whether the query has any parameters.
    pub fn has_params(&self) -> (r: bool)
        ensures
            r == (self@.param_count > 0),
    {
        self.param_count > 0
    }
}

impl Clone for Sql {
    fn clone(&self) -> (r: Sql)
        ensures
            r@ == self@,
    {
        Sql {
            value: self.value.clone(),
            tables: copy_strings(self.tables.as_slice()),
            columns: copy_strings(self.columns.as_slice()),
            query_type: self.query_type,
            param_count: self.param_count,
        }
    }
}

impl Default for Sql {
    fn default() -> (r: Sql)
        ensures
            r@ == Sql::plain(Seq::empty()),
    {
        let v: [char; 0] = [];
        let r = Sql {
            value: string_of(&v),
            tables: Vec::new(),
            columns: Vec::new(),
            query_type: QueryType::Other,
            param_count: 0,
        };
        assert(r@.value =~= Seq::<char>::empty());
        assert(r@.tables =~= Seq::<Seq<char>>::empty());
        assert(r@.columns =~= Seq::<Seq<char>>::empty());
        r
    }
}

impl AsRef<str> for Sql {
    fn as_ref(&self) -> (r: &str)
        ensures
            str_text(r) == self@.value,
    {
        self.value.as_str()
    }
}

impl AsRef<[u8]> for Sql {
    fn as_ref(&self) -> (r: &[u8])
        ensures
            byte_seq(r) == vstd::utf8::encode_utf8(self@.value),
    {
        self.value.as_str().as_bytes()
    }
}

impl core::ops::Deref for Sql {
    type Target = str;

    fn deref(&self) -> (r: &str)
        ensures
            r@ == self@.value,
    {
        self.value.as_str()
    }
}

impl From<Sql> for String {
    fn from(sql: Sql) -> (r: String)
        ensures
            r@ == sql@.value,
    {
        sql.value
    }
}

impl From<&Sql> for String {
    fn from(sql: &Sql) -> (r: String)
        ensures
            r@ == sql@.value,
    {
        sql.value.clone()
    }
}

impl vstd::std_specs::convert::FromSpecImpl<&Sql> for String {
    open spec fn obeys_from_spec() -> bool {
        true
    }

    closed spec fn from_spec(v: &Sql) -> String {
        v.value
    }
}

impl From<Sql> for std::borrow::Cow<'static, str> {
    fn from(sql: Sql) -> (r: std::borrow::Cow<'static, str>)
        ensures
            r@ == sql@.value,
    {
        std::borrow::Cow::Owned(sql.value)
    }
}

impl vstd::std_specs::convert::FromSpecImpl<Sql> for std::borrow::Cow<'static, str> {
    open spec fn obeys_from_spec() -> bool {
        true
    }

    closed spec fn from_spec(v: Sql) -> std::borrow::Cow<'static, str> {
        std::borrow::Cow::Owned(v.value)
    }
}

/// `String::leak`: the text, kept for the rest of the program.
///
/// Claims that the returned slice holds the string's text.
#[verifier::external_body]
fn leak_string(s: String) -> (r: &'static str)
    ensures
        r@ == s@,
{
    s.leak()
}

impl From<Sql> for &'static str {
    /// The SQL text, kept for the rest of the program.
    fn from(sql: Sql) -> (r: &'static str)
        ensures
            r@ == sql@.value,
    {
        leak_string(sql.value)
    }
}

impl vstd::std_specs::convert::FromSpecImpl<Sql> for &'static str {
    open spec fn obeys_from_spec() -> bool {
        false
    }

    open spec fn from_spec(v: Sql) -> &'static str {
        arbitrary()
    }
}

impl PartialEq<&str> for Sql {
    fn eq(&self, other: &&str) -> (r: bool) {
        same_text(self.value.as_str(), *other)
    }
}

impl vstd::std_specs::cmp::PartialEqSpecImpl<&str> for Sql {
    open spec fn obeys_eq_spec() -> bool {
        true
    }

    open spec fn eq_spec(&self, other: &&str) -> bool {
        self@.value == (*other)@
    }
}

impl PartialEq<str> for Sql {
    fn eq(&self, other: &str) -> (r: bool) {
        same_text(self.value.as_str(), other)
    }
}

impl vstd::std_specs::cmp::PartialEqSpecImpl<str> for Sql {
    open spec fn obeys_eq_spec() -> bool {
        true
    }

    open spec fn eq_spec(&self, other: &str) -> bool {
        self@.value == other@
    }
}

impl PartialEq<String> for Sql {
    fn eq(&self, other: &String) -> (r: bool) {
        same_text(self.value.as_str(), other.as_str())
    }
}

impl vstd::std_specs::cmp::PartialEqSpecImpl<String> for Sql {
    open spec fn obeys_eq_spec() -> bool {
        true
    }

    open spec fn eq_spec(&self, other: &String) -> bool {
        self@.value == other@
    }
}

impl vstd::std_specs::convert::FromSpecImpl<Sql> for String {
    open spec fn obeys_from_spec() -> bool {
        true
    }

    closed spec fn from_spec(v: Sql) -> String {
        v.value
    }
}

/// A SELECT query never modifies data, and a mutating query is never a
/// SELECT: `is_select` and `is_mutating` are never both true.
pub proof fn law_select_is_not_mutating(q: Sql)
    ensures
        !(q@.query_type == QueryType::Select && is_mutating_type(q@.query_type)),
{
}

} // verus!
