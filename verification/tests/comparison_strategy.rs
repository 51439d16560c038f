#![allow(unused_imports, dead_code)]
use partiql_winnow_parser::ast;
use partiql_winnow_parser::ast::{BinOpKind, Lit};
use partiql_winnow_parser::expr::ExprChain;
use partiql_winnow_parser::parse_context::ParseContext;

fn parse(input: &str) -> ast::Expr {
    let s: Vec<char> = input.chars().collect();
    let chain = ExprChain::new();
    let mut pctx = ParseContext::new();
    chain.parse_expr(&s, 0, &mut pctx).expect("parse failed").0
}

fn try_parse(input: &str) -> Result<ast::Expr, ()> {
    let s: Vec<char> = input.chars().collect();
    let chain = ExprChain::new();
    let mut pctx = ParseContext::new();
    chain.parse_expr(&s, 0, &mut pctx).map(|r| r.0).map_err(|_| ())
}

fn assert_comparison(expr: &ast::Expr, expected_kind: BinOpKind) {
    match expr {
        ast::Expr::BinOp(n) => {
            assert_eq!(n.node.kind, expected_kind);
            assert!(matches!(
                &*n.node.lhs,
                ast::Expr::VarRef(v) if v.node.name.value == "a"
            ));
            assert!(matches!(
                &*n.node.rhs,
                ast::Expr::Lit(lit) if matches!(lit.node, Lit::Int64Lit(1))
            ));
        }
        _ => panic!("expected BinOp"),
    }
}

#[test]
fn test_eq() {
    let expr = parse("a = 1");
    assert_comparison(&expr, BinOpKind::Eq);
}

#[test]
fn test_ne_bang() {
    let expr = parse("a != 1");
    assert_comparison(&expr, BinOpKind::Ne);
}

#[test]
fn test_ne_diamond() {
    let expr = parse("a <> 1");
    assert_comparison(&expr, BinOpKind::Ne);
}

#[test]
fn test_lt() {
    let expr = parse("a < 1");
    assert_comparison(&expr, BinOpKind::Lt);
}

#[test]
fn test_gt() {
    let expr = parse("a > 1");
    assert_comparison(&expr, BinOpKind::Gt);
}

#[test]
fn test_lte() {
    let expr = parse("a <= 1");
    assert_comparison(&expr, BinOpKind::Lte);
}

#[test]
fn test_gte() {
    let expr = parse("a >= 1");
    assert_comparison(&expr, BinOpKind::Gte);
}
