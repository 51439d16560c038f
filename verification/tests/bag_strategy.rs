#![allow(unused_imports, dead_code)]
use partiql_winnow_parser::ast;
use partiql_winnow_parser::ast::{Lit};
use partiql_winnow_parser::expr::ExprChain;
use partiql_winnow_parser::parse_context::ParseContext;

fn parse(input: &str) -> ast::Expr {
    let s: Vec<char> = input.chars().collect();
    let chain = ExprChain::new();
    let mut pctx = ParseContext::new();
    chain.parse_expr(&s, 0, &mut pctx).expect("parse failed").0
}

fn try_parse(input: &str) -> Result<ast::Expr, ()> {
    let s: Vec<char> = input.chars().collect();
    let chain = ExprChain::new();
    let mut pctx = ParseContext::new();
    chain.parse_expr(&s, 0, &mut pctx).map(|r| r.0).map_err(|_| ())
}

#[test]
fn test_empty_bag() {
    let expr = parse("<< >>");
    match &expr {
        ast::Expr::Bag(n) => assert_eq!(n.node.values.len(), 0),
        other => panic!("expected Bag, got {:?}", other),
    }
}

#[test]
fn test_bag_integers() {
    let expr = parse("<<1, 2, 3>>");
    match &expr {
        ast::Expr::Bag(n) => {
            assert_eq!(n.node.values.len(), 3);
            assert!(matches!(
                &*n.node.values[0],
                ast::Expr::Lit(l) if matches!(l.node, Lit::Int64Lit(1))
            ));
        }
        other => panic!("expected Bag, got {:?}", other),
    }
}

#[test]
fn test_bag_with_struct() {
    // FDE INSERT pattern: << {'email': 'a@co'} >>
    let expr = parse("<<{'email': 'a@co'}>>");
    match &expr {
        ast::Expr::Bag(n) => {
            assert_eq!(n.node.values.len(), 1);
            assert!(matches!(&*n.node.values[0], ast::Expr::Struct(_)));
        }
        other => panic!("expected Bag, got {:?}", other),
    }
}
