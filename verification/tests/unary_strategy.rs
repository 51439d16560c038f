#![allow(unused_imports, dead_code)]
use partiql_winnow_parser::ast;
use partiql_winnow_parser::ast::{UniOpKind};
use partiql_winnow_parser::expr::ExprChain;
use partiql_winnow_parser::parse_context::ParseContext;

fn parse(input: &str) -> ast::Expr {
    let s: Vec<char> = input.chars().collect();
    let chain = ExprChain::new();
    let mut pctx = ParseContext::new();
    chain.parse_expr(&s, 0, &mut pctx).expect("parse failed").0
}

fn try_parse(input: &str) -> Result<ast::Expr, ()> {
    let s: Vec<char> = input.chars().collect();
    let chain = ExprChain::new();
    let mut pctx = ParseContext::new();
    chain.parse_expr(&s, 0, &mut pctx).map(|r| r.0).map_err(|_| ())
}

#[test]
fn test_unary_neg() {
    let expr = parse("-5");
    assert!(matches!(&expr, ast::Expr::UniOp(n) if n.node.kind == UniOpKind::Neg));
}

#[test]
fn test_unary_pos() {
    let expr = parse("+5");
    assert!(matches!(&expr, ast::Expr::UniOp(n) if n.node.kind == UniOpKind::Pos));
}
