use sqltmpl::{
    count_placeholders, extract_metadata, extract_select_metadata, sql_with_statement, FromEntry,
    ProjectionItem, QueryBody, QueryType, SelectSummary, StatementSummary,
};

fn s(x: &str) -> String {
    x.to_string()
}

fn join_select() -> SelectSummary {
    SelectSummary {
        from: vec![
            FromEntry { relation: Some(s("users")), joins: vec![Some(s("orders")), None] },
            FromEntry { relation: None, joins: vec![Some(s("items"))] },
        ],
        projection: vec![
            ProjectionItem::Identifier(s("id")),
            ProjectionItem::CompoundIdentifier(vec![s("o"), s("total")]),
            ProjectionItem::CompoundIdentifier(vec![]),
            ProjectionItem::Alias(s("n")),
            ProjectionItem::Wildcard,
            ProjectionItem::Other,
        ],
    }
}

#[test]
fn count_placeholders_counts_question_marks() {
    assert_eq!(count_placeholders("SELECT * FROM t WHERE a = ? AND b = ?"), 2);
    assert_eq!(count_placeholders("SELECT 1"), 0);
    assert_eq!(count_placeholders("???"), 3);
    assert_eq!(count_placeholders("SELECT * FROM t WHERE a = '?' AND b = ?"), 1);
    assert_eq!(count_placeholders("SELECT 'it''s ?', \"q?\" FROM t WHERE c = ?"), 1);
    assert_eq!(count_placeholders("SELECT '?"), 0);
}

#[test]
fn select_metadata_reads_from_and_projection_in_order() {
    let mut tables = vec![s("before")];
    let mut columns = vec![];
    extract_select_metadata(&join_select(), &mut tables, &mut columns);
    assert_eq!(tables, vec![s("before"), s("users"), s("orders"), s("items")]);
    assert_eq!(columns, vec![s("id"), s("total"), s("n"), s("*")]);
}

#[test]
fn metadata_of_each_statement_kind() {
    let text = "X ? ?";
    let q = StatementSummary::Query(QueryBody::Select(join_select()));
    let m = extract_metadata(text, Some(&q));
    assert_eq!(m.sql, text);
    assert_eq!(m.query_type, QueryType::Select);
    assert_eq!(m.tables, vec![s("users"), s("orders"), s("items")]);
    assert_eq!(m.columns, vec![s("id"), s("total"), s("n"), s("*")]);
    assert_eq!(m.param_count, 2);

    let m = extract_metadata(text, Some(&StatementSummary::Query(QueryBody::Other)));
    assert_eq!(m.query_type, QueryType::Select);
    assert!(m.tables.is_empty() && m.columns.is_empty());

    let m = extract_metadata(text, Some(&StatementSummary::Insert(s("logs"))));
    assert_eq!(m.query_type, QueryType::Insert);
    assert_eq!(m.tables, vec![s("logs")]);
    assert!(m.columns.is_empty());

    let m = extract_metadata(text, Some(&StatementSummary::Update(s("users"))));
    assert_eq!(m.query_type, QueryType::Update);
    assert_eq!(m.tables, vec![s("users")]);

    let from = vec![
        FromEntry { relation: Some(s("a")), joins: vec![] },
        FromEntry { relation: Some(s("b")), joins: vec![] },
    ];
    let m = extract_metadata(text, Some(&StatementSummary::Delete(vec![], from)));
    assert_eq!(m.query_type, QueryType::Delete);
    assert_eq!(m.tables, vec![s("a"), s("b")]);
    let from = vec![FromEntry { relation: Some(s("u")), joins: vec![] }];
    let m = extract_metadata(text, Some(&StatementSummary::Delete(vec![s("t")], from)));
    assert_eq!(m.tables, vec![s("t")]);

    let m = extract_metadata(text, Some(&StatementSummary::CreateTable(s("t"))));
    assert_eq!(m.query_type, QueryType::Create);
    assert_eq!(m.tables, vec![s("t")]);

    let m = extract_metadata(text, Some(&StatementSummary::Drop(vec![s("t"), s("u")])));
    assert_eq!(m.query_type, QueryType::Drop);
    assert_eq!(m.tables, vec![s("t"), s("u")]);
    assert!(m.columns.is_empty());

    let m = extract_metadata(text, Some(&StatementSummary::Other));
    assert_eq!(m.query_type, QueryType::Other);
    assert!(m.tables.is_empty() && m.columns.is_empty());

    let m = extract_metadata(text, None);
    assert_eq!(m.query_type, QueryType::Other);
    assert!(m.tables.is_empty() && m.columns.is_empty());
    assert_eq!(m.param_count, 2);
}

#[test]
fn sql_with_statement_carries_the_metadata() {
    let q = StatementSummary::Query(QueryBody::Select(join_select()));
    let sql = sql_with_statement("SELECT ?", Some(&q));
    assert_eq!(sql.as_str(), "SELECT ?");
    assert!(sql.is_select());
    assert!(!sql.is_mutating());
    assert_eq!(sql.tables(), &["users", "orders", "items"]);
    assert_eq!(sql.columns(), &["id", "total", "n", "*"]);
    assert_eq!(sql.param_count(), 1);

    let d = StatementSummary::Drop(vec![s("t")]);
    let sql = sql_with_statement("DROP TABLE t", Some(&d));
    assert_eq!(sql.query_type(), QueryType::Drop);
    assert!(sql.is_mutating());
    assert!(sql.columns().is_empty());

    let none = sql_with_statement("", None);
    assert_eq!(none.query_type(), QueryType::Other);
    assert!(!none.has_params());
}

#[test]
fn set_operation_reads_both_sides() {
    let left = SelectSummary {
        from: vec![FromEntry { relation: Some(s("x")), joins: vec![] }],
        projection: vec![ProjectionItem::Identifier(s("a"))],
    };
    let right = SelectSummary {
        from: vec![FromEntry { relation: Some(s("y")), joins: vec![] }],
        projection: vec![ProjectionItem::Identifier(s("b"))],
    };
    let body = QueryBody::SetOperation(
        Box::new(QueryBody::Select(left)),
        Box::new(QueryBody::Nested(Box::new(QueryBody::Select(right)))),
    );
    let m = extract_metadata("Q", Some(&StatementSummary::Query(body)));
    assert_eq!(m.query_type, QueryType::Select);
    assert_eq!(m.tables, vec![s("x"), s("y")]);
    assert_eq!(m.columns, vec![s("a")]);
}
