#![allow(unused_imports, dead_code)]
use partiql_winnow_parser::ast;
use partiql_winnow_parser::ast::{BinOpKind};
use partiql_winnow_parser::expr::ExprChain;
use partiql_winnow_parser::parse_context::ParseContext;

fn parse(input: &str) -> ast::Expr {
    let s: Vec<char> = input.chars().collect();
    let chain = ExprChain::new();
    let mut pctx = ParseContext::new();
    chain.parse_expr(&s, 0, &mut pctx).expect("parse failed").0
}

fn try_parse(input: &str) -> Result<ast::Expr, ()> {
    let s: Vec<char> = input.chars().collect();
    let chain = ExprChain::new();
    let mut pctx = ParseContext::new();
    chain.parse_expr(&s, 0, &mut pctx).map(|r| r.0).map_err(|_| ())
}

#[test]
fn test_simple_and() {
    let expr = parse("1 AND 2");
    assert!(matches!(&expr, ast::Expr::BinOp(n) if n.node.kind == BinOpKind::And));
}

#[test]
fn test_multiple_ands() {
    // 1 AND 2 AND 3 => left-associative: (1 AND 2) AND 3
    let expr = parse("1 AND 2 AND 3");
    match &expr {
        ast::Expr::BinOp(n) => {
            assert_eq!(n.node.kind, BinOpKind::And);
            assert!(
                matches!(&*n.node.lhs, ast::Expr::BinOp(inner) if inner.node.kind == BinOpKind::And)
            );
        }
        _ => panic!("expected BinOp"),
    }
}

#[test]
fn test_and_with_comparison() {
    // a = 1 AND b = 2
    let expr = parse("a = 1 AND b = 2");
    match &expr {
        ast::Expr::BinOp(n) => {
            assert_eq!(n.node.kind, BinOpKind::And);
            assert!(
                matches!(&*n.node.lhs, ast::Expr::BinOp(inner) if inner.node.kind == BinOpKind::Eq)
            );
            assert!(
                matches!(&*n.node.rhs, ast::Expr::BinOp(inner) if inner.node.kind == BinOpKind::Eq)
            );
        }
        _ => panic!("expected BinOp"),
    }
}
