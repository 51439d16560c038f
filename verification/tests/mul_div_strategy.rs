#![allow(unused_imports, dead_code)]
use partiql_winnow_parser::ast;
use partiql_winnow_parser::ast::{BinOpKind};
use partiql_winnow_parser::expr::ExprChain;
use partiql_winnow_parser::parse_context::ParseContext;

fn parse(input: &str) -> ast::Expr {
    let s: Vec<char> = input.chars().collect();
    let chain = ExprChain::new();
    let mut pctx = ParseContext::new();
    chain.parse_expr(&s, 0, &mut pctx).expect("parse failed").0
}

fn try_parse(input: &str) -> Result<ast::Expr, ()> {
    let s: Vec<char> = input.chars().collect();
    let chain = ExprChain::new();
    let mut pctx = ParseContext::new();
    chain.parse_expr(&s, 0, &mut pctx).map(|r| r.0).map_err(|_| ())
}

#[test]
fn test_mul() {
    let expr = parse("2 * 3");
    assert!(matches!(&expr, ast::Expr::BinOp(n) if n.node.kind == BinOpKind::Mul));
}

#[test]
fn test_div() {
    let expr = parse("6 / 2");
    assert!(matches!(&expr, ast::Expr::BinOp(n) if n.node.kind == BinOpKind::Div));
}

#[test]
fn test_mod() {
    let expr = parse("7 % 3");
    assert!(matches!(&expr, ast::Expr::BinOp(n) if n.node.kind == BinOpKind::Mod));
}

#[test]
fn test_chained_multiplications() {
    // 2 * 3 * 4 => left-associative: (2 * 3) * 4
    let expr = parse("2 * 3 * 4");
    match &expr {
        ast::Expr::BinOp(n) => {
            assert_eq!(n.node.kind, BinOpKind::Mul);
            assert!(
                matches!(&*n.node.lhs, ast::Expr::BinOp(inner) if inner.node.kind == BinOpKind::Mul)
            );
        }
        _ => panic!("expected BinOp"),
    }
}
