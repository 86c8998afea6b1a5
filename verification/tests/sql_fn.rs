use sqltmpl::{sql_fn, sql_fn_params_out_of_order, Query, SqlFnDef, SqlFnError};

// `sql_fn! { fn all_users() { SELECT * FROM users } }`, as its token text.
fn all_users_def() -> SqlFnDef {
    sql_fn("fn all_users () { SELECT * FROM users }").unwrap()
}

fn all_users() -> Query<()> {
    all_users_def().query(())
}

// `sql_fn! { pub fn active_sessions() { SELECT id, user_id FROM sessions WHERE active = 1 } }`
fn active_sessions_def() -> SqlFnDef {
    sql_fn("pub fn active_sessions () { SELECT id , user_id FROM sessions WHERE active = 1 }")
        .unwrap()
}

fn active_sessions() -> Query<()> {
    active_sessions_def().query(())
}

#[test]
fn sql_fn_no_params_returns_query() {
    let q: Query<()> = all_users();
    assert_eq!(q.sql().param_count(), 0);
    assert!(q.sql().as_str().contains("users"), "SQL: {}", q.sql().as_str());
}

#[test]
fn sql_fn_no_params_sql_content() {
    let q = all_users();
    assert!(q.sql().as_str().contains("users"), "expected 'users' in: {}", q.sql().as_str());
}

#[test]
fn sql_fn_pub_visibility_is_callable() {
    let q = active_sessions();
    assert!(q.sql().as_str().contains("sessions"), "SQL: {}", q.sql().as_str());
}

#[test]
fn sql_fn_no_params_empty_tuple() {
    let q = all_users();
    let (_, params) = q.into_parts();
    let () = params;
}

// ---- further cases ----

#[test]
fn sql_fn_reads_the_signature() {
    let d = all_users_def();
    assert!(!d.is_pub);
    assert_eq!(d.name, "all_users");
    assert!(d.params.is_empty());
    assert_eq!(d.return_type, "");
    assert_eq!(d.sql, "SELECT * FROM users");
    assert_eq!(d.validation_sql, "SELECT * FROM users");
    let p = active_sessions_def();
    assert!(p.is_pub);
    assert_eq!(p.name, "active_sessions");
}

#[test]
fn sql_fn_replaces_params_with_placeholders() {
    let d = sql_fn(
        "pub fn get_user (id : u64 , name : & str) -> Sql { SELECT * FROM users WHERE id = {id} AND name = {name} }",
    )
    .unwrap();
    assert_eq!(d.params.len(), 2);
    assert_eq!(d.params[0].name, "id");
    assert_eq!(d.params[0].ty, "u64");
    assert_eq!(d.params[1].name, "name");
    assert_eq!(d.params[1].ty, "& str");
    assert_eq!(d.params_str, "id : u64 , name : & str");
    assert_eq!(d.return_type, "Sql");
    assert_eq!(d.sql, "SELECT * FROM users WHERE id = {id} AND name = {name}");
    assert_eq!(d.validation_sql, "SELECT * FROM users WHERE id = ? AND name = ?");
    let q = d.query((42u64, "bob"));
    assert_eq!(q.sql().as_str(), "SELECT * FROM users WHERE id = ? AND name = ?");
    assert_eq!(q.sql().param_count(), 0);
    assert_eq!(q.params().0, 42);
}

#[test]
fn sql_fn_doc_comments_and_attributes() {
    let d = sql_fn("/// Lists users.\n#[inline] fn f () { SELECT 1 }").unwrap();
    assert_eq!(d.doc_comments, vec!["/// Lists users.".to_string()]);
    assert_eq!(d.doc_texts(), vec!["Lists users.".to_string()]);
    assert_eq!(d.name, "f");
}

#[test]
fn sql_fn_errors() {
    assert!(matches!(sql_fn("struct S;"), Err(SqlFnError::NotAFunction)));
    assert!(matches!(sql_fn("fn f { SELECT 1 }"), Err(SqlFnError::MissingParams)));
    assert!(matches!(sql_fn("fn f ( { SELECT 1 }"), Err(SqlFnError::UnclosedParams)));
    assert!(matches!(sql_fn("fn f ()"), Err(SqlFnError::MissingBody)));
    assert!(matches!(sql_fn("fn f () { SELECT 1 "), Err(SqlFnError::UnclosedBody)));
    assert!(matches!(sql_fn("fn f () {   }"), Err(SqlFnError::EmptyBody)));
    match sql_fn("fn f () { SELEKT FROM }") {
        Err(SqlFnError::Syntax(m)) => assert!(!m.is_empty()),
        other => panic!("unexpected: {:?}", other.err()),
    }
    assert_eq!(SqlFnError::EmptyBody.message(), "sql_fn!: function body is empty");
    assert_eq!(
        SqlFnError::Syntax("x".to_string()).message(),
        "SQL syntax error in sql_fn!: x"
    );
}

#[test]
fn sql_fn_params_out_of_order_is_detected() {
    assert!(sql_fn_params_out_of_order("fn f ) ( { SELECT 1 }"));
    assert!(!sql_fn_params_out_of_order("fn f () { SELECT 1 }"));
    assert!(!sql_fn_params_out_of_order("struct S;"));
}

#[test]
fn sql_fn_nested_braces_in_body() {
    // `{a}` in the macro's tokens reaches `sql_fn` as `{ a }`.
    let d = sql_fn("fn f (a : i32) { SELECT * FROM t WHERE x = { a } }").unwrap();
    assert_eq!(d.sql, "SELECT * FROM t WHERE x = { a }");
    assert_eq!(d.validation_sql, "SELECT * FROM t WHERE x = ?");
    // Braces are counted wherever they stand, quoted or not.
    assert!(matches!(sql_fn("fn f (a : i32) { SELECT '{' , {a} }"), Err(SqlFnError::UnclosedBody)));
}

#[test]
fn sql_fn_doc_example_as_token_text() {
    // sql_fn! { fn get_user(id: u64) -> Sql { SELECT * FROM users WHERE id = {id} } }
    let d = sql_fn("fn get_user (id : u64) -> Sql { SELECT * FROM users WHERE id = { id } }")
        .unwrap();
    assert_eq!(d.validation_sql, "SELECT * FROM users WHERE id = ?");
    let q = d.query((42u64,));
    assert_eq!(q.sql().as_str(), "SELECT * FROM users WHERE id = ?");
    assert_eq!(q.params(), &(42u64,));
}

#[test]
fn sql_fn_placeholders_need_the_whole_name() {
    let d = sql_fn("fn f (a : i32 , ab : i32) { SELECT { ab } , {a}, {\ta\n} FROM t }").unwrap();
    assert_eq!(d.validation_sql, "SELECT ? , ?, ? FROM t");
    let e = sql_fn("fn f (a : i32) { SELECT { a b } FROM t }");
    assert!(matches!(e, Err(SqlFnError::Syntax(_))));
}

#[test]
fn sql_fn_syntax_error_carries_the_parser_message() {
    let expected = sqlparser::parser::Parser::parse_sql(&sqlparser::dialect::AnsiDialect {}, "SELEKT FROM")
        .unwrap_err()
        .to_string();
    match sql_fn("fn f () { SELEKT FROM }") {
        Err(e @ SqlFnError::Syntax(_)) => {
            assert_eq!(e.message(), format!("SQL syntax error in sql_fn!: {}", expected));
        },
        other => panic!("unexpected: {:?}", other.err()),
    }
}
