use sqltmpl::{FromSql, Query, QueryType, RowAccess, SimpleRow, Sql, ValueError};

#[test]
fn test_sql_new() {
    let sql = Sql::new("SELECT * FROM users");
    assert_eq!(sql.as_str(), "SELECT * FROM users");
}

#[test]
fn test_sql_as_ref() {
    let sql = Sql::new("SELECT 1");
    let s: &str = sql.as_ref();
    assert_eq!(s, "SELECT 1");
}

#[test]
fn test_sql_deref() {
    let sql = Sql::new("SELECT 1");
    assert_eq!(sql.len(), 8);
    assert_eq!(&*sql, "SELECT 1");
}

#[test]
fn test_sql_into_string() {
    let sql = Sql::new("SELECT 1");
    let s: String = sql.to_string();
    assert_eq!(s, "SELECT 1");
}

#[test]
fn test_sql_display() {
    let sql = Sql::new("SELECT 1");
    assert_eq!(sql.to_string(), "SELECT 1");
}

#[test]
fn test_sql_equality() {
    let sql = Sql::new("SELECT 1");
    assert_eq!(sql, "SELECT 1");
    assert_eq!(sql, String::from("SELECT 1"));
}

#[test]
fn test_sql_introspection() {
    let sql = Sql::new_with_metadata(
        "SELECT id, name FROM users WHERE active = ?",
        &["users"],
        &["id", "name"],
        QueryType::Select,
        1,
    );

    assert_eq!(sql.as_str(), "SELECT id, name FROM users WHERE active = ?");
    assert_eq!(sql.tables(), &["users"]);
    assert_eq!(sql.columns(), &["id", "name"]);
    assert!(sql.is_select());
    assert!(!sql.is_mutating());
    assert_eq!(sql.param_count(), 1);
    assert!(sql.has_params());
}

#[test]
fn test_sql_insert_metadata() {
    let sql = Sql::new_with_metadata(
        "INSERT INTO logs VALUES (?, ?, ?)",
        &["logs"],
        &[],
        QueryType::Insert,
        3,
    );

    assert!(!sql.is_select());
    assert!(sql.is_mutating());
    assert_eq!(sql.tables(), &["logs"]);
    assert_eq!(sql.param_count(), 3);
}

#[test]
fn test_simple_row() {
    let row = SimpleRow::new(vec![
        "42".to_string(),
        "Alice".to_string(),
        "true".to_string(),
    ]);

    assert_eq!(row.len(), 3);
    assert_eq!(row.get::<i64>(0).unwrap(), 42);
    assert_eq!(row.get::<String>(1).unwrap(), "Alice");
    assert_eq!(row.get::<bool>(2).unwrap(), true);
}

#[test]
fn test_sql_default() {
    let sql = Sql::default();
    assert_eq!(sql.as_str(), "");
    assert!(!sql.has_params());
    assert!(!sql.is_select());
    assert!(!sql.is_mutating());
}

#[test]
fn test_sql_clone() {
    let sql = Sql::new("SELECT 1");
    assert_eq!(sql.clone(), sql);
}

#[test]
fn test_sql_new_const() {
    let sql = Sql::new_const("SELECT 1");
    assert_eq!(sql.as_str(), "SELECT 1");
}

#[test]
fn test_sql_into_inner() {
    let sql = Sql::new_const("SELECT 1");
    let s: String = sql.into_inner();
    assert_eq!(s, "SELECT 1");
}

#[test]
fn test_sql_into_cow() {
    let sql = Sql::new_const("SELECT 1");
    let cow: std::borrow::Cow<'static, str> = sql.into();
    assert_eq!(cow, "SELECT 1");
}

#[test]
fn test_sql_into_static_str() {
    let sql = Sql::new_const("SELECT 1");
    let s: &'static str = sql.into();
    assert_eq!(s, "SELECT 1");
}

#[test]
fn test_sql_has_params_false() {
    let sql = Sql::new("SELECT * FROM users");
    assert!(!sql.has_params());
    assert_eq!(sql.param_count(), 0);
}

#[test]
fn test_sql_update_is_mutating() {
    let sql = Sql::new_with_metadata(
        "UPDATE users SET name = ? WHERE id = ?",
        &["users"],
        &[],
        QueryType::Update,
        2,
    );
    assert!(sql.is_mutating());
    assert!(!sql.is_select());
}

#[test]
fn test_sql_delete_is_mutating() {
    let sql = Sql::new_with_metadata(
        "DELETE FROM users WHERE id = ?",
        &["users"],
        &[],
        QueryType::Delete,
        1,
    );
    assert!(sql.is_mutating());
    assert!(!sql.is_select());
}

#[test]
fn test_simple_row_is_empty() {
    assert!(SimpleRow::new(vec![]).is_empty());
    assert!(!SimpleRow::new(vec!["x".to_string()]).is_empty());
}

#[test]
fn test_simple_row_out_of_bounds() {
    let row = SimpleRow::new(vec!["42".to_string()]);
    assert!(row.get::<i64>(1).is_err());
}

#[test]
fn test_from_sql_i32() {
    assert_eq!(i32::from_sql("99").unwrap(), 99i32);
    assert!(i32::from_sql("not_a_number").is_err());
}

#[test]
fn test_from_sql_bool_variants() {
    for s in ["true", "1", "yes", "t"] {
        assert!(bool::from_sql(s).unwrap(), "expected true for {s}");
    }
    for s in ["false", "0", "no", "f"] {
        assert!(!bool::from_sql(s).unwrap(), "expected false for {s}");
    }
    assert!(bool::from_sql("maybe").is_err());
}

#[test]
fn test_query_accessors() {
    let query = Query::new(Sql::new("SELECT * FROM users WHERE id = ?"), (42i64,));
    assert_eq!(query.sql().as_str(), "SELECT * FROM users WHERE id = ?");
    assert_eq!(query.params().0, 42i64);
}

#[test]
fn test_query_into_parts() {
    let (sql, params) = Query::new(Sql::new("SELECT * FROM t WHERE id = ?"), (7i64,)).into_parts();
    assert_eq!(sql.as_str(), "SELECT * FROM t WHERE id = ?");
    assert_eq!(params.0, 7i64);
}

// ---- further cases ----

#[test]
fn query_type_of_plain_sql_is_other() {
    let sql = Sql::new("SELECT 1");
    assert_eq!(sql.query_type(), QueryType::Other);
    assert!(sql.tables().is_empty());
    assert!(sql.columns().is_empty());
}

#[test]
fn select_is_never_mutating() {
    for t in [
        QueryType::Select,
        QueryType::Insert,
        QueryType::Update,
        QueryType::Delete,
        QueryType::Create,
        QueryType::Drop,
        QueryType::Other,
    ] {
        let sql = Sql::new_with_metadata("x", &[], &[], t, 0);
        assert!(!(sql.is_select() && sql.is_mutating()));
    }
}

#[test]
fn sql_into_string_conversions() {
    let sql = Sql::new("SELECT 2");
    let a: String = String::from(&sql);
    assert_eq!(a, "SELECT 2");
    let b: String = String::from(sql);
    assert_eq!(b, "SELECT 2");
}

#[test]
fn sql_equality_is_textual() {
    let sql = Sql::new("SELECT 1");
    assert!(sql != "SELECT 2");
    assert!(sql != String::from("SELECT 1 "));
}

#[test]
fn from_sql_i64_edges() {
    assert_eq!(i64::from_sql("9223372036854775807").unwrap(), i64::MAX);
    assert_eq!(i64::from_sql("-9223372036854775808").unwrap(), i64::MIN);
    assert!(i64::from_sql("9223372036854775808").is_err());
    assert!(i64::from_sql("-9223372036854775809").is_err());
    assert_eq!(i64::from_sql("+5").unwrap(), 5);
    assert_eq!(i64::from_sql("-0").unwrap(), 0);
    assert_eq!(i64::from_sql("007").unwrap(), 7);
    assert!(i64::from_sql("").is_err());
    assert!(i64::from_sql("-").is_err());
    assert!(i64::from_sql("+").is_err());
    assert!(i64::from_sql(" 1").is_err());
    assert!(i64::from_sql("1 ").is_err());
    assert!(i64::from_sql("12a").is_err());
    assert!(i64::from_sql("99999999999999999999999").is_err());
}

#[test]
fn from_sql_i32_range() {
    assert_eq!(i32::from_sql("2147483647").unwrap(), i32::MAX);
    assert_eq!(i32::from_sql("-2147483648").unwrap(), i32::MIN);
    assert!(i32::from_sql("2147483648").is_err());
    assert_eq!(
        i32::from_sql("x"),
        Err(ValueError::InvalidInteger(
            "Failed to parse i32: invalid digit found in string".to_string()
        ))
    );
}

#[test]
fn from_sql_bool_is_case_insensitive() {
    assert!(bool::from_sql("TRUE").unwrap());
    assert!(bool::from_sql("Yes").unwrap());
    assert!(!bool::from_sql("FALSE").unwrap());
    assert!(!bool::from_sql("F").unwrap());
    assert_eq!(
        bool::from_sql("maybe"),
        Err(ValueError::InvalidBool("Failed to parse bool from: maybe".to_string()))
    );
    assert!(bool::from_sql("true ").is_err());
}

#[test]
fn from_sql_string_is_identity() {
    assert_eq!(String::from_sql("a b").unwrap(), "a b");
    assert_eq!(String::from_sql("").unwrap(), "");
}

#[test]
fn simple_row_out_of_bounds_error() {
    let row = SimpleRow::new(vec!["42".to_string()]);
    assert_eq!(
        row.get::<i64>(5),
        Err(ValueError::IndexOutOfBounds { index: 5, len: 1 })
    );
    assert_eq!(row.get::<i64>(0), Ok(42));
    assert!(row.get::<bool>(0).is_err());
}

#[test]
fn query_clone_keeps_sql_and_params() {
    let query = Query::new(Sql::new("SELECT * FROM t WHERE a = ? AND b = ?"), (3i64, 4i64));
    let cloned = query.clone();
    assert_eq!(cloned.sql().as_str(), query.sql().as_str());
    assert_eq!(cloned.params(), query.params());
    let (sql, params) = cloned.into_parts();
    assert_eq!(sql, "SELECT * FROM t WHERE a = ? AND b = ?");
    assert_eq!(params, (3, 4));
}

#[test]
fn query_tuple_matches_params() {
    for i in 0i64..1000 {
        let query = Query::new(Sql::new("SELECT * FROM users WHERE id = ?"), (i,));
        assert_eq!(query.sql().as_str().matches('?').count(), 1);
        let (param,) = query.params();
        assert_eq!(*param, i);
    }
}

#[test]
fn query_clone_preserves_params() {
    for i in (0i64..1000).step_by(37) {
        for j in (0i64..1000).step_by(41) {
            let query = Query::new(Sql::new("SELECT * FROM t WHERE a = ? AND b = ?"), (i, j));
            let cloned = query.clone();
            assert_eq!(cloned.sql().as_str(), query.sql().as_str());
            assert_eq!(cloned.params().0, query.params().0);
            assert_eq!(cloned.params().1, query.params().1);
        }
    }
}

#[test]
fn query_into_parts_roundtrip() {
    for i in 0i64..1000 {
        let query = Query::new(Sql::new("SELECT * FROM users WHERE id = ?"), (i,));
        let (sql, params) = query.into_parts();
        assert_eq!(sql.as_str(), "SELECT * FROM users WHERE id = ?");
        assert_eq!(params.0, i);
    }
}

#[test]
fn sql_as_bytes_and_str_equality() {
    let sql = Sql::new("SELECT é");
    let b: &[u8] = sql.as_ref();
    assert_eq!(b, "SELECT é".as_bytes());
    let s: &str = "SELECT é";
    assert!(sql == *s);
    assert!(sql != *"SELECT e");
}

#[test]
fn sql_drop_is_mutating() {
    let sql = Sql::new_with_metadata("DROP TABLE users", &["users"], &[], QueryType::Drop, 0);
    assert!(sql.is_mutating());
    assert!(!sql.is_select());
    let create = Sql::new_with_metadata("CREATE TABLE t (a INT)", &["t"], &[], QueryType::Create, 0);
    assert!(!create.is_mutating());
}

#[test]
fn simple_row_get_gives_the_conversion_error() {
    let row = SimpleRow::new(vec!["abc".to_string(), "maybe".to_string()]);
    assert_eq!(
        row.get::<i64>(0).unwrap_err().message(),
        "Failed to parse i64: invalid digit found in string"
    );
    assert_eq!(
        row.get::<bool>(1).unwrap_err().message(),
        "Failed to parse bool from: maybe"
    );
    assert_eq!(row.get::<i64>(7).unwrap_err().message(), "Index 7 out of bounds (len: 2)");
    assert_eq!(
        SimpleRow::new(vec![]).get::<i64>(12345).unwrap_err().message(),
        "Index 12345 out of bounds (len: 0)"
    );
    assert_eq!(
        i64::from_sql("").unwrap_err().message(),
        "Failed to parse i64: cannot parse integer from empty string"
    );
    assert_eq!(
        i32::from_sql("3000000000").unwrap_err().message(),
        "Failed to parse i32: number too large to fit in target type"
    );
}
