#![allow(unused_imports, dead_code)]
use partiql_winnow_parser::ast::QuerySet;
use partiql_winnow_parser::dql::select_parser::SelectParser;
use partiql_winnow_parser::parsed_dql::ParsedDql;

fn parse(sql: &str) -> ParsedDql {
    let parser = SelectParser::new();
    ParsedDql::parse(&parser, sql).expect("parse failed")
}

#[test]
fn test_simple_select() {
    let result = parse("SELECT * FROM users WHERE email = 'test@co'");
    assert_eq!(result.table_names.as_slice(), &["users"]);
    assert!(result.where_clause().is_some());
    assert!(result.unnest_aliases.is_empty());
}

#[test]
fn test_quoted_table() {
    let result = parse(r#"SELECT * FROM "fde.users" WHERE email = 'test@co'"#);
    assert_eq!(result.table_names.as_slice(), &["fde.users"]);
}

#[test]
fn parsed_dql_test_unnest_pattern() {
    let result = parse(
        r#"SELECT p.id FROM "fde.users" u, u.platformData p WHERE p.id = 'abc'"#,
    );
    assert_eq!(result.table_names.len(), 1); // "fde.users", path is not a table
    let p_alias = result
        .unnest_aliases
        .as_slice()
        .iter()
        .find(|(k, _)| k == "p")
        .map(|(_, v)| v.as_str());
    assert_eq!(p_alias, Some("platformData"));
    assert!(result.where_clause().is_some());
}

#[test]
fn test_no_where() {
    let result = parse("SELECT * FROM users");
    assert!(result.where_clause().is_none());
}

#[test]
fn test_ast_available() {
    let result = parse("SELECT a FROM t WHERE a = 1");
    // AST can be passed to LogicalPlanner::lower()
    match &result.ast.node.query.node.set.node {
        QuerySet::Select(_) => {}
        other => panic!("expected Select, got {:?}", other),
    }
}
