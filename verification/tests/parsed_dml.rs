#![allow(unused_imports, dead_code)]
use partiql_winnow_parser::ast::{ConflictAction, Expr};
use partiql_winnow_parser::dml::parsed_dml::{DmlQueryParser, ParsedDml};
use partiql_winnow_parser::expr::ExprChain;
use partiql_winnow_parser::parse_context::ParseContext;

fn parse(sql: &str) -> ParsedDml {
    let s: Vec<char> = sql.chars().collect();
    let chain = ExprChain::new();
    let mut pctx = ParseContext::new();
    let parser = DmlQueryParser::new(&chain);
    parser.parse(&s, 0, &mut pctx).expect("not DML").expect("parse failed").0
}

#[test]
fn parsed_dml_test_insert() {
    match parse("INSERT INTO \"fde.users\" <<{'email': 'a@co'}, {'email': 'b@co'}>>") {
        ParsedDml::Insert(op) => {
            assert_eq!(op.table_name, "fde.users");
            assert_eq!(op.values.len(), 2);
        }
        other => panic!("expected Insert, got {:?}", other),
    }
}

#[test]
fn test_insert_on_conflict() {
    match parse(
        "INSERT INTO \"fde.users\" <<{'email': 'a@co'}>> ON CONFLICT DO UPDATE SET email = EXCLUDED.email",
    ) {
        ParsedDml::InsertOnConflict(op) => {
            assert_eq!(op.table_name, "fde.users");
            assert_eq!(op.values.len(), 1);
        }
        other => panic!("expected InsertOnConflict, got {:?}", other),
    }
}

#[test]
fn parsed_dml_test_replace() {
    match parse("REPLACE INTO users <<{'email': 'a@co'}>>") {
        ParsedDml::Replace(op) => {
            assert_eq!(op.table_name, "users");
            assert_eq!(op.values.len(), 1);
        }
        other => panic!("expected Replace, got {:?}", other),
    }
}

#[test]
fn parsed_dml_test_upsert() {
    match parse("UPSERT INTO \"fde.users\" <<{'email': 'a@co'}>>") {
        ParsedDml::Upsert(op) => {
            assert_eq!(op.table_name, "fde.users");
        }
        other => panic!("expected Upsert, got {:?}", other),
    }
}

#[test]
fn parsed_dml_test_delete_where() {
    match parse("DELETE FROM \"fde.users\" WHERE email = 'a@co'") {
        ParsedDml::Delete(op) => {
            assert_eq!(op.table_name, "fde.users");
            assert!(op.where_clause.is_some());
        }
        other => panic!("expected Delete, got {:?}", other),
    }
}

#[test]
fn parsed_dml_test_delete_no_where() {
    match parse("DELETE FROM users") {
        ParsedDml::Delete(op) => {
            assert_eq!(op.table_name, "users");
            assert!(op.where_clause.is_none());
        }
        other => panic!("expected Delete, got {:?}", other),
    }
}

#[test]
fn test_delete_with_alias() {
    match parse("DELETE FROM \"fde.users\" u WHERE u.email = 'a@co'") {
        ParsedDml::Delete(op) => {
            assert_eq!(op.table_name, "fde.users");
            assert!(op.where_clause.is_some());
        }
        other => panic!("expected Delete, got {:?}", other),
    }
}

#[test]
fn test_insert_nested_fde_pattern() {
    match parse(
        r#"INSERT INTO "fde.users" <<{'email': 'user@co', 'platformData': [{'id': 'abc', 'platform': 'MsTeams'}]}>>"#,
    ) {
        ParsedDml::Insert(op) => {
            assert_eq!(op.table_name, "fde.users");
            assert_eq!(op.values.len(), 1);
            assert!(matches!(&op.values[0], Expr::Struct(_)));
        }
        other => panic!("expected Insert, got {:?}", other),
    }
}
