#![allow(unused_imports, dead_code)]
use partiql_winnow_parser::ast::{ConflictAction, ConflictTarget, Expr, ExtendedExpr, OnConflict};
use partiql_winnow_parser::dml::on_conflict::OnConflictParser;
use partiql_winnow_parser::expr::ExprChain;
use partiql_winnow_parser::parse_context::ParseContext;

fn parse_oc(input: &str) -> OnConflict {
    let s: Vec<char> = input.chars().collect();
    let chain = ExprChain::new();
    let mut pctx = ParseContext::new();
    OnConflictParser::new(chain.pratt()).parse(&s, 0, &mut pctx).expect("parse failed").0
}

#[test]
fn test_do_nothing() {
    let oc = parse_oc("ON CONFLICT DO NOTHING");
    assert!(matches!(oc.conflict_action, ConflictAction::DoNothing));
}

#[test]
fn test_do_update_excluded() {
    let oc = parse_oc("ON CONFLICT DO UPDATE EXCLUDED");
    assert!(matches!(
        oc.conflict_action,
        ConflictAction::DoUpdateExcluded { where_clause: None }
    ));
}

#[test]
fn test_do_update_excluded_where() {
    let oc = parse_oc("ON CONFLICT DO UPDATE EXCLUDED WHERE email = 'a@co'");
    match &oc.conflict_action {
        ConflictAction::DoUpdateExcluded { where_clause } => {
            assert!(where_clause.is_some());
        }
        other => panic!("expected DoUpdateExcluded, got {:?}", other),
    }
}

#[test]
fn test_do_update_set() {
    let oc = parse_oc("ON CONFLICT DO UPDATE SET name = 'Bob', age = 30");
    match &oc.conflict_action {
        ConflictAction::DoUpdateSet {
            set_clauses,
            where_clause,
        } => {
            assert_eq!(set_clauses.len(), 2);
            assert_eq!(set_clauses[0].column, "name");
            assert_eq!(set_clauses[1].column, "age");
            assert!(where_clause.is_none());
        }
        other => panic!("expected DoUpdateSet, got {:?}", other),
    }
}

#[test]
fn test_do_update_set_with_function() {
    let oc = parse_oc(
        "ON CONFLICT DO UPDATE SET tags = array_union(EXCLUDED.tags, tags)",
    );
    match &oc.conflict_action {
        ConflictAction::DoUpdateSet { set_clauses, .. } => {
            assert_eq!(set_clauses.len(), 1);
            assert!(matches!(
                &set_clauses[0].expr,
                ExtendedExpr::FunctionCall(f) if f.function_name == "array_union"
            ));
        }
        other => panic!("expected DoUpdateSet, got {:?}", other),
    }
}

#[test]
fn test_conflict_target_columns() {
    let oc = parse_oc("ON CONFLICT (email, platform) DO NOTHING");
    match &oc.target {
        Some(ConflictTarget::Columns(cols)) => {
            assert_eq!(cols.as_slice(), &["email", "platform"]);
        }
        other => panic!("expected Columns target, got {:?}", other),
    }
}

#[test]
fn test_do_replace_excluded() {
    let oc = parse_oc("ON CONFLICT DO REPLACE EXCLUDED");
    assert!(matches!(
        oc.conflict_action,
        ConflictAction::DoReplaceExcluded { where_clause: None }
    ));
}

#[test]
fn test_full_insert_on_conflict_pattern() {
    let oc = parse_oc(
        "ON CONFLICT DO UPDATE SET \
         email = EXCLUDED.email, \
         name = EXCLUDED.name, \
         platformData = array_union(EXCLUDED.platformData, platformData)",
    );
    match &oc.conflict_action {
        ConflictAction::DoUpdateSet { set_clauses, .. } => {
            assert_eq!(set_clauses.len(), 3);
            assert!(matches!(&set_clauses[0].expr, ExtendedExpr::PartiQL(_)));
            assert!(matches!(&set_clauses[1].expr, ExtendedExpr::PartiQL(_)));
            assert!(matches!(
                &set_clauses[2].expr,
                ExtendedExpr::FunctionCall(f) if f.function_name == "array_union"
            ));
        }
        other => panic!("expected DoUpdateSet, got {:?}", other),
    }
}
