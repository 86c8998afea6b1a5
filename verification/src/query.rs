//! `Query`: SQL with `?` placeholders and its parameters, kept apart.
use vstd::prelude::*;

use crate::sql::Sql;

verus! {

/// A parameterized SQL query: the SQL with `?` placeholders, and the
/// parameter values in a tuple, kept separately.
#[derive(Debug)]
pub struct Query<T> {
    sql: Sql,
    params: T,
}

impl<T> Query<T> {
    /// The SQL of the query.
    pub closed spec fn spec_sql(&self) -> Sql {
        self.sql
    }

    /// The parameters of the query.
    pub closed spec fn spec_params(&self) -> T {
        self.params
    }

    /// The query made of `sql` and `params`.
    pub closed spec fn spec_new(sql: Sql, params: T) -> Query<T> {
        Query { sql, params }
    }

    /// Creates a query from SQL and parameters.
    pub fn new(sql: Sql, params: T) -> (r: Query<T>)
        ensures
            r == Query::spec_new(sql, params),
            r.spec_sql() == sql,
            r.spec_params() == params,
    {
        Query { sql, params }
    }

    /// The SQL.
    pub fn sql(&self) -> (r: &Sql)
        ensures
            *r == self.spec_sql(),
    {
        &self.sql
    }

    /// The parameters.
    pub fn params(&self) -> (r: &T)
        ensures
            *r == self.spec_params(),
    {
        &self.params
    }

    /// The SQL and the parameters, consuming the query.
    pub fn into_parts(self) -> (r: (Sql, T))
        ensures
            r.0 == self.spec_sql(),
            r.1 == self.spec_params(),
    {
        (self.sql, self.params)
    }
}

/// Taking a query apart gives back what it was made of: the SQL and the
/// parameters that `new` was given are those that `into_parts` returns.
pub proof fn law_into_parts_undoes_new<T>(sql: Sql, params: T)
    ensures
        Query::spec_new(sql, params).spec_sql() == sql,
        Query::spec_new(sql, params).spec_params() == params,
{
}

impl<T: Clone> Clone for Query<T> {
    /// A copy with the same SQL and a clone of the parameters.
    fn clone(&self) -> (r: Query<T>)
        ensures
            r.spec_sql()@ == self.spec_sql()@,
            cloned(self.spec_params(), r.spec_params()),
    {
        Query { sql: self.sql.clone(), params: self.params.clone() }
    }
}

} // verus!
