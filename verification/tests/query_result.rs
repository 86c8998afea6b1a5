use sqltmpl::{
    derive_query_result, extract_sql_from_attributes, process_derive_sql, AttributeDef, DataDef,
    DeriveError, DeriveInput, FieldDef, FieldsDef, QueryResultImpl, QueryType, RowAccess,
    SimpleRow, ValueError,
};

fn field(name: &str, ty: &str) -> FieldDef {
    FieldDef { name: name.to_string(), ty: ty.to_string() }
}

fn struct_input(ident: &str, fields: Vec<FieldDef>, attrs: Vec<AttributeDef>) -> DeriveInput {
    DeriveInput {
        ident: ident.to_string(),
        attrs,
        data: DataDef::Struct(FieldsDef::Named(fields)),
    }
}

/// `#[derive(QueryResult)] struct User { id: i64, name: String }`
fn user_derive() -> QueryResultImpl {
    derive_query_result(&struct_input(
        "User",
        vec![field("id", "i64"), field("name", "String")],
        vec![],
    ))
    .unwrap()
}

/// `#[derive(QueryResult)] struct LogEntry { id: i64, message: String, level: String }`
fn log_entry_derive() -> QueryResultImpl {
    derive_query_result(&struct_input(
        "LogEntry",
        vec![field("id", "i64"), field("message", "String"), field("level", "String")],
        vec![],
    ))
    .unwrap()
}

#[derive(Debug)]
struct User {
    id: i64,
    name: String,
}

impl User {
    fn columns() -> Vec<String> {
        user_derive().columns
    }

    // The body that the derive generates: each field read, in order, from
    // the column that the derive assigns to it.
    fn from_row(row: &impl RowAccess) -> Result<Self, ValueError> {
        let d = user_derive();
        assert_eq!(d.reads[0].name, "id");
        assert_eq!(d.reads[1].name, "name");
        Ok(Self { id: row.get::<i64>(d.reads[0].index)?, name: row.get::<String>(d.reads[1].index)? })
    }
}

#[derive(Debug)]
struct LogEntry {
    id: i64,
    message: String,
    level: String,
}

impl LogEntry {
    fn columns() -> Vec<String> {
        log_entry_derive().columns
    }

    fn from_row(row: &impl RowAccess) -> Result<Self, ValueError> {
        let d = log_entry_derive();
        Ok(Self {
            id: row.get::<i64>(d.reads[0].index)?,
            message: row.get::<String>(d.reads[1].index)?,
            level: row.get::<String>(d.reads[2].index)?,
        })
    }
}

#[test]
fn query_result_columns() {
    assert_eq!(User::columns(), &["id", "name"]);
}

#[test]
fn query_result_from_row() {
    let row = SimpleRow::new(vec!["42".to_string(), "Alice".to_string()]);
    let user = User::from_row(&row).unwrap();
    assert_eq!(user.id, 42);
    assert_eq!(user.name, "Alice");
}

#[test]
fn query_result_from_row_three_fields() {
    let row = SimpleRow::new(vec![
        "1".to_string(),
        "hello world".to_string(),
        "info".to_string(),
    ]);
    let entry = LogEntry::from_row(&row).unwrap();
    assert_eq!(entry.id, 1);
    assert_eq!(entry.message, "hello world");
    assert_eq!(entry.level, "info");
}

#[test]
fn query_result_from_row_out_of_bounds_fails() {
    let row = SimpleRow::new(vec!["42".to_string()]);
    assert!(User::from_row(&row).is_err());
}

#[test]
fn query_result_multiple_structs_have_independent_columns() {
    assert_eq!(User::columns(), &["id", "name"]);
    assert_eq!(LogEntry::columns(), &["id", "message", "level"]);
}

// ---- further cases ----

#[test]
fn derive_reads_fields_in_order() {
    let d = log_entry_derive();
    assert_eq!(d.struct_name, "LogEntry");
    assert_eq!(d.reads.len(), 3);
    for (i, r) in d.reads.iter().enumerate() {
        assert_eq!(r.index, i);
    }
    assert_eq!(d.reads[1].ty, "String");
}

#[test]
fn derive_default_sql_concatenates_names() {
    let d = user_derive();
    assert_eq!(d.sql.as_str(), "SELECT idname FROM User");
    assert_eq!(d.sql.query_type(), QueryType::Other);
    assert_eq!(d.sql.param_count(), 0);
}

#[test]
fn derive_rejects_other_shapes() {
    let tuple = DeriveInput {
        ident: "T".to_string(),
        attrs: vec![],
        data: DataDef::Struct(FieldsDef::Unnamed),
    };
    assert_eq!(derive_query_result(&tuple).err(), Some(DeriveError::TupleStruct));
    let unit = DeriveInput {
        ident: "U".to_string(),
        attrs: vec![],
        data: DataDef::Struct(FieldsDef::Unit),
    };
    assert_eq!(derive_query_result(&unit).err(), Some(DeriveError::UnitStruct));
    let en = DeriveInput { ident: "E".to_string(), attrs: vec![], data: DataDef::Enum };
    assert_eq!(derive_query_result(&en).err(), Some(DeriveError::NotAStruct));
    assert_eq!(
        DeriveError::TupleStruct.message(),
        "QueryResult does not support tuple structs"
    );
    assert_eq!(DeriveError::NotAStruct.message(), "QueryResult only supports named structs");
}

fn from_sql_attr(tokens: &str) -> AttributeDef {
    AttributeDef { is_from_sql: true, list_tokens: Some(tokens.to_string()) }
}

#[test]
fn derive_sql_from_attribute() {
    let input = struct_input(
        "User",
        vec![field("id", "i64"), field("name", "String")],
        vec![from_sql_attr("sql ! (SELECT id , name FROM users WHERE id = ?)")],
    );
    let d = derive_query_result(&input).unwrap();
    assert_eq!(d.sql.as_str(), "SELECT id , name FROM users WHERE id = ?");
    assert!(d.sql.is_select());
    assert_eq!(d.sql.tables(), &["users"]);
    assert_eq!(d.sql.columns(), &["id", "name"]);
    assert_eq!(d.sql.param_count(), 1);
}

#[test]
fn derive_sql_keeps_double_quotes_as_written() {
    let input = struct_input(
        "Duck",
        vec![field("id", "i64")],
        vec![from_sql_attr(r#"sql ! (SELECT id FROM ducks WHERE name = "Donald")"#)],
    );
    let d = derive_query_result(&input).unwrap();
    assert_eq!(d.sql.as_str(), r#"SELECT id FROM ducks WHERE name = "Donald""#);
    assert!(d.sql.is_select());
    assert_eq!(d.sql.tables(), &["ducks"]);
    assert_eq!(d.sql.columns(), &["id"]);
    assert_eq!(d.sql.param_count(), 0);
}

#[test]
fn derive_sql_from_unparsable_attribute_falls_back() {
    let input = struct_input(
        "User",
        vec![field("id", "i64"), field("name", "String")],
        vec![from_sql_attr("sql!(SELEKT ? ?)")],
    );
    let d = derive_query_result(&input).unwrap();
    assert_eq!(d.sql.as_str(), "SELEKT ? ?");
    assert!(d.sql.is_select());
    assert!(d.sql.tables().is_empty());
    assert_eq!(d.sql.columns(), &["id", "name"]);
    assert_eq!(d.sql.param_count(), 2);
}

#[test]
fn attributes_other_than_sql_invocations_are_skipped() {
    let attrs = vec![
        AttributeDef { is_from_sql: false, list_tokens: Some("sql!(SELECT 1)".to_string()) },
        AttributeDef { is_from_sql: true, list_tokens: None },
        from_sql_attr("query(SELECT 2)"),
        from_sql_attr("sql!(  SELECT 3 )"),
        from_sql_attr("sql!(SELECT 4)"),
    ];
    assert_eq!(extract_sql_from_attributes(&attrs), Some("SELECT 3 ".to_string()));
    assert_eq!(extract_sql_from_attributes(&attrs[..3]), None);
}

#[test]
fn attribute_sql_runs_to_the_last_paren() {
    let attrs = vec![from_sql_attr("sql ! (SELECT count (*) FROM t) extra")];
    assert_eq!(extract_sql_from_attributes(&attrs), Some("SELECT count (*) FROM t".to_string()));
    let unclosed = vec![from_sql_attr("sql!(SELECT 1")];
    assert_eq!(extract_sql_from_attributes(&unclosed), Some("SELECT 1".to_string()));
}

#[test]
fn derive_sql_escapes_are_resolved() {
    assert_eq!(process_derive_sql(r#"a\"b\nc\td\\e"#), "a\"b\nc\td\\e");
    assert_eq!(process_derive_sql(r"\\n"), r"\n");
    assert_eq!(process_derive_sql(r"a\\nb"), r"a\nb");
    assert_eq!(process_derive_sql(r"\x\"), r"\x\");
    assert_eq!(process_derive_sql("plain"), "plain");
}
