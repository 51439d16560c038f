#![allow(unused_imports, dead_code)]
use partiql_winnow_parser::ast;
use partiql_winnow_parser::ast::{Lit};
use partiql_winnow_parser::expr::ExprChain;
use partiql_winnow_parser::parse_context::ParseContext;

fn parse(input: &str) -> ast::Expr {
    let s: Vec<char> = input.chars().collect();
    let chain = ExprChain::new();
    let mut pctx = ParseContext::new();
    chain.parse_expr(&s, 0, &mut pctx).expect("parse failed").0
}

fn try_parse(input: &str) -> Result<ast::Expr, ()> {
    let s: Vec<char> = input.chars().collect();
    let chain = ExprChain::new();
    let mut pctx = ParseContext::new();
    chain.parse_expr(&s, 0, &mut pctx).map(|r| r.0).map_err(|_| ())
}

#[test]
fn test_empty_list() {
    let expr = parse("[]");
    match &expr {
        ast::Expr::List(n) => assert_eq!(n.node.values.len(), 0),
        other => panic!("expected List, got {:?}", other),
    }
}

#[test]
fn test_list_integers() {
    let expr = parse("[1, 2, 3]");
    match &expr {
        ast::Expr::List(n) => {
            assert_eq!(n.node.values.len(), 3);
            assert!(matches!(
                &*n.node.values[0],
                ast::Expr::Lit(l) if matches!(l.node, Lit::Int64Lit(1))
            ));
        }
        other => panic!("expected List, got {:?}", other),
    }
}

#[test]
fn test_list_strings() {
    let expr = parse("['a', 'b']");
    match &expr {
        ast::Expr::List(n) => {
            assert_eq!(n.node.values.len(), 2);
            assert!(matches!(
                &*n.node.values[0],
                ast::Expr::Lit(l) if matches!(&l.node, Lit::CharStringLit(s) if s == "a")
            ));
        }
        other => panic!("expected List, got {:?}", other),
    }
}

#[test]
fn test_nested_list() {
    let expr = parse("[[1, 2], [3]]");
    match &expr {
        ast::Expr::List(n) => {
            assert_eq!(n.node.values.len(), 2);
            assert!(matches!(&*n.node.values[0], ast::Expr::List(_)));
        }
        other => panic!("expected List, got {:?}", other),
    }
}
