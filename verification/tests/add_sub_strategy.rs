#![allow(unused_imports, dead_code)]
use partiql_winnow_parser::ast;
use partiql_winnow_parser::ast::{BinOpKind};
use partiql_winnow_parser::expr::ExprChain;
use partiql_winnow_parser::parse_context::ParseContext;

fn parse(input: &str) -> ast::Expr {
    let s: Vec<char> = input.chars().collect();
    let chain = ExprChain::new();
    let mut pctx = ParseContext::new();
    chain.parse_expr(&s, 0, &mut pctx).expect("parse failed").0
}

fn try_parse(input: &str) -> Result<ast::Expr, ()> {
    let s: Vec<char> = input.chars().collect();
    let chain = ExprChain::new();
    let mut pctx = ParseContext::new();
    chain.parse_expr(&s, 0, &mut pctx).map(|r| r.0).map_err(|_| ())
}

#[test]
fn test_add() {
    let expr = parse("1 + 2");
    assert!(matches!(&expr, ast::Expr::BinOp(n) if n.node.kind == BinOpKind::Add));
}

#[test]
fn test_sub() {
    let expr = parse("3 - 1");
    assert!(matches!(&expr, ast::Expr::BinOp(n) if n.node.kind == BinOpKind::Sub));
}

#[test]
fn add_sub_strategy_test_concat() {
    let expr = parse("'a' || 'b'");
    assert!(matches!(&expr, ast::Expr::BinOp(n) if n.node.kind == BinOpKind::Concat));
}

#[test]
fn test_chained_additions() {
    // 1 + 2 + 3 => left-associative: (1 + 2) + 3
    let expr = parse("1 + 2 + 3");
    match &expr {
        ast::Expr::BinOp(n) => {
            assert_eq!(n.node.kind, BinOpKind::Add);
            assert!(
                matches!(&*n.node.lhs, ast::Expr::BinOp(inner) if inner.node.kind == BinOpKind::Add)
            );
        }
        _ => panic!("expected BinOp"),
    }
}
