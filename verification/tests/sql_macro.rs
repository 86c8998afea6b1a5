use sqltmpl::{process_token_stream, sql, unescape_string, Delimiter, QueryType, Sql, Token};

fn id(s: &str) -> Token {
    Token::Ident(s.to_string())
}

fn p(c: char) -> Token {
    Token::Punct(c)
}

fn lit(s: &str) -> Token {
    Token::Literal(s.to_string())
}

fn paren(ts: Vec<Token>) -> Token {
    Token::Group(Delimiter::Parenthesis, ts)
}

#[test]
fn sql_macro_select_star_metadata() {
    // sql!(SELECT * FROM users)
    let q = sql(&[id("SELECT"), p('*'), id("FROM"), id("users")]).unwrap();
    assert!(q.is_select());
    assert!(!q.is_mutating());
    assert_eq!(q.tables(), &["users"]);
    assert!(q.columns().iter().any(|c| c == "*"));
    assert_eq!(q.param_count(), 0);
    assert!(!q.has_params());
}

#[test]
fn sql_macro_select_columns_metadata() {
    // sql!(SELECT id, name FROM users WHERE active = ?)
    let q = sql(&[
        id("SELECT"),
        id("id"),
        p(','),
        id("name"),
        id("FROM"),
        id("users"),
        id("WHERE"),
        id("active"),
        p('='),
        p('?'),
    ])
    .unwrap();
    assert!(q.is_select());
    assert_eq!(q.tables(), &["users"]);
    assert_eq!(q.columns(), &["id", "name"]);
    assert_eq!(q.param_count(), 1);
    assert!(q.has_params());
}

#[test]
fn sql_macro_insert_metadata() {
    // sql!(INSERT INTO logs (msg, level) VALUES (?, ?))
    let q = sql(&[
        id("INSERT"),
        id("INTO"),
        id("logs"),
        paren(vec![id("msg"), p(','), id("level")]),
        id("VALUES"),
        paren(vec![p('?'), p(','), p('?')]),
    ])
    .unwrap();
    assert!(q.is_mutating());
    assert!(!q.is_select());
    assert_eq!(q.tables(), &["logs"]);
    assert_eq!(q.param_count(), 2);
}

#[test]
fn sql_macro_update_metadata() {
    // sql!(UPDATE users SET name = ? WHERE id = ?)
    let q = sql(&[
        id("UPDATE"),
        id("users"),
        id("SET"),
        id("name"),
        p('='),
        p('?'),
        id("WHERE"),
        id("id"),
        p('='),
        p('?'),
    ])
    .unwrap();
    assert!(q.is_mutating());
    assert!(!q.is_select());
    assert_eq!(q.param_count(), 2);
}

#[test]
fn sql_macro_delete_metadata() {
    // sql!(DELETE FROM sessions WHERE expires_at < ?)
    let q = sql(&[
        id("DELETE"),
        id("FROM"),
        id("sessions"),
        id("WHERE"),
        id("expires_at"),
        p('<'),
        p('?'),
    ])
    .unwrap();
    assert!(q.is_mutating());
    assert!(!q.is_select());
    assert_eq!(q.param_count(), 1);
}

#[test]
fn sql_macro_delete_reads_from_clause() {
    let q = sql(&[id("DELETE"), id("FROM"), id("sessions"), id("WHERE"), id("id"), p('='), p('?')]).unwrap();
    assert_eq!(q.query_type(), QueryType::Delete);
    assert_eq!(q.tables(), &["sessions"]);
}

#[test]
fn sql_macro_multi_table_delete_names_its_targets() {
    // sql!(DELETE t FROM u)
    let q = sql(&[id("DELETE"), id("t"), id("FROM"), id("u")]).unwrap();
    assert_eq!(q.query_type(), QueryType::Delete);
    assert_eq!(q.tables(), &["t"]);
}

#[test]
fn sql_syntax_error_carries_the_parser_message() {
    let e = sql(&[id("SELEKT"), id("x")]).unwrap_err();
    let expected = sqlparser::parser::Parser::parse_sql(&sqlparser::dialect::AnsiDialect {}, "SELEKT x")
        .unwrap_err()
        .to_string();
    assert_eq!(e.detail, Some(expected.clone()));
    assert_eq!(e.message(), format!("SQL syntax error: {}", expected));
}

#[test]
fn sql_macro_union_reads_both_sides() {
    // SELECT a FROM x UNION SELECT a FROM y
    let q = sql(&[
        id("SELECT"), id("a"), id("FROM"), id("x"), id("UNION"),
        id("SELECT"), id("a"), id("FROM"), id("y"),
    ])
    .unwrap();
    assert!(q.is_select());
    assert_eq!(q.tables(), &["x", "y"]);
    assert_eq!(q.columns(), &["a"]);
}

#[test]
fn sql_macro_produces_sql_type() {
    // sql!(SELECT 1)
    let q: Sql = sql(&[id("SELECT"), lit("1")]).unwrap();
    assert!(q.is_select());
    assert_eq!(q.param_count(), 0);
}

#[test]
fn sql_macro_multiple_params() {
    // sql!(SELECT * FROM t WHERE a = ? AND b = ? AND c = ?)
    let q = sql(&[
        id("SELECT"),
        p('*'),
        id("FROM"),
        id("t"),
        id("WHERE"),
        id("a"),
        p('='),
        p('?'),
        id("AND"),
        id("b"),
        p('='),
        p('?'),
        id("AND"),
        id("c"),
        p('='),
        p('?'),
    ])
    .unwrap();
    assert_eq!(q.param_count(), 3);
}

#[test]
fn sql_macro_join() {
    // sql!(SELECT u.id FROM users u JOIN orders o ON u.id = o.user_id)
    let q = sql(&[
        id("SELECT"),
        id("u"),
        p('.'),
        id("id"),
        id("FROM"),
        id("users"),
        id("u"),
        id("JOIN"),
        id("orders"),
        id("o"),
        id("ON"),
        id("u"),
        p('.'),
        id("id"),
        p('='),
        id("o"),
        p('.'),
        id("user_id"),
    ])
    .unwrap();
    assert!(q.is_select());
    assert!(q.tables().iter().any(|t| t == "users" || t == "u"));
}

// ---- further cases ----

#[test]
fn token_text_spacing() {
    let ts = [id("SELECT"), id("id"), p(','), id("name"), id("FROM"), id("users"), id("WHERE"), id("active"), p('='), p('?')];
    assert_eq!(process_token_stream(&ts), "SELECT id, name FROM users WHERE active=?");
    let ts2 = [id("f"), paren(vec![id("a"), p(','), id("b")]), id("x")];
    assert_eq!(process_token_stream(&ts2), "f (a, b) x");
    assert_eq!(process_token_stream(&[]), "");
    let ts3 = [Token::Group(Delimiter::Bracket, vec![lit("1")]), Token::Group(Delimiter::Invisible, vec![id("a")]), Token::Group(Delimiter::Brace, vec![])];
    assert_eq!(process_token_stream(&ts3), "[1] a {}");
}

#[test]
fn string_literals_become_sql_strings() {
    // sql!(SELECT * FROM ducks WHERE name = "Donald")
    let ts = [id("SELECT"), p('*'), id("FROM"), id("ducks"), id("WHERE"), id("name"), p('='), lit("\"Donald\"")];
    assert_eq!(process_token_stream(&ts), "SELECT*FROM ducks WHERE name='Donald'");
    let q = sql(&ts).unwrap();
    assert_eq!(q.as_str(), "SELECT*FROM ducks WHERE name='Donald'");
    assert_eq!(q.tables(), &["ducks"]);
    assert_eq!(process_token_stream(&[lit("\"a\\tb\"")]), "'a\tb'");
    assert_eq!(process_token_stream(&[lit("r\"x\"")]), "r\"x\"");
    assert_eq!(process_token_stream(&[lit("\"\"")]), "''");
    assert_eq!(process_token_stream(&[lit("\"")]), "\"");
}

#[test]
fn unescape_cases() {
    assert_eq!(unescape_string(r"a\nb"), "a\nb");
    assert_eq!(unescape_string(r"\r\t\0"), "\r\t\0");
    assert_eq!(unescape_string(r#"\\ \" \'"#), "\\ \" '");
    assert_eq!(unescape_string(r"\x"), "\\x");
    assert_eq!(unescape_string("end\\"), "end\\");
    assert_eq!(unescape_string(""), "");
    assert_eq!(unescape_string(r"\x41\u{e9}"), "Aé");
    assert_eq!(unescape_string(r"\u{1F600}!"), "\u{1F600}!");
    assert_eq!(unescape_string(r"\x80 \x4"), "\\x80 \\x4");
    assert_eq!(unescape_string(r"\u{D800} \u{} \u{1234567} \u{41"), "\\u{D800} \\u{} \\u{1234567} \\u{41");
}

#[test]
fn single_quotes_in_string_literals_are_doubled() {
    // sql!(SELECT * FROM t WHERE name = "O'Brien")
    let ts = [id("SELECT"), p('*'), id("FROM"), id("t"), id("WHERE"), id("name"), p('='), lit("\"O'Brien\"")];
    assert_eq!(process_token_stream(&ts), "SELECT*FROM t WHERE name='O''Brien'");
    let q = sql(&ts).unwrap();
    assert!(q.is_select());
    assert_eq!(q.tables(), &["t"]);
}

#[test]
fn two_minus_signs_do_not_start_a_comment() {
    // sql!(SELECT a - - b FROM t)
    let ts = [id("SELECT"), id("a"), p('-'), p('-'), id("b"), id("FROM"), id("t")];
    let text = process_token_stream(&ts);
    assert!(!text.contains("--"));
    assert_eq!(text, "SELECT a- -b FROM t");
    let q = sql(&ts).unwrap();
    assert_eq!(q.tables(), &["t"]);
}

#[test]
fn sql_syntax_errors() {
    let e = sql(&[id("SELEKT"), id("x")]).unwrap_err();
    assert!(e.detail.is_some());
    assert!(e.message().starts_with("SQL syntax error: "));
    let empty = sql(&[]).unwrap();
    assert_eq!(empty.as_str(), "");
    assert_eq!(empty.query_type(), QueryType::Other);
}

#[test]
fn sql_macro_create_and_drop() {
    let c = sql(&[id("CREATE"), id("TABLE"), id("t"), paren(vec![id("a"), id("INT")])]).unwrap();
    assert_eq!(c.query_type(), QueryType::Create);
    assert_eq!(c.tables(), &["t"]);
    assert!(c.columns().is_empty());
    let d = sql(&[id("DROP"), id("TABLE"), id("t1"), p(','), id("t2")]).unwrap();
    assert_eq!(d.query_type(), QueryType::Drop);
    assert_eq!(d.tables(), &["t1", "t2"]);
    assert!(d.is_mutating());
}

#[test]
fn sql_macro_aliases_and_qualified_columns() {
    // SELECT t.a, b AS c FROM t
    let q = sql(&[id("SELECT"), id("t"), p('.'), id("a"), p(','), id("b"), id("AS"), id("c"), id("FROM"), id("t")]).unwrap();
    assert_eq!(q.columns(), &["a", "c"]);
}

#[test]
fn sql_roundtrip_parsing() {
    // SELECT <col> FROM <table> [WHERE <col> = ?] parses, for a spread of names.
    let names = ["a", "id", "users", "zz", "abcdefghijklmnop", "col", "x"];
    for col in names {
        for table in names {
            let plain = [id("SELECT"), id(col), id("FROM"), id(table)];
            let q = sql(&plain).unwrap();
            assert_eq!(q.tables(), &[table]);
            assert_eq!(q.columns(), &[col]);
            let with_where = [
                id("SELECT"),
                id(col),
                id("FROM"),
                id(table),
                id("WHERE"),
                id(col),
                p('='),
                p('?'),
            ];
            let q = sql(&with_where).unwrap();
            assert_eq!(q.param_count(), 1);
        }
    }
}
