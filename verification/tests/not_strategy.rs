#![allow(unused_imports, dead_code)]
use partiql_winnow_parser::ast;
use partiql_winnow_parser::ast::{UniOpKind};
use partiql_winnow_parser::expr::ExprChain;
use partiql_winnow_parser::parse_context::ParseContext;

fn parse(input: &str) -> ast::Expr {
    let s: Vec<char> = input.chars().collect();
    let chain = ExprChain::new();
    let mut pctx = ParseContext::new();
    chain.parse_expr(&s, 0, &mut pctx).expect("parse failed").0
}

fn try_parse(input: &str) -> Result<ast::Expr, ()> {
    let s: Vec<char> = input.chars().collect();
    let chain = ExprChain::new();
    let mut pctx = ParseContext::new();
    chain.parse_expr(&s, 0, &mut pctx).map(|r| r.0).map_err(|_| ())
}

#[test]
fn not_strategy_test_not() {
    let expr = parse("NOT true");
    assert!(matches!(&expr, ast::Expr::UniOp(n) if n.node.kind == UniOpKind::Not));
}

#[test]
fn test_not_parenthesized_not() {
    // NOT (NOT true) => NOT (NOT true) via parenthesized sub-expression
    let expr = parse("NOT (NOT true)");
    match &expr {
        ast::Expr::UniOp(n) => {
            assert_eq!(n.node.kind, UniOpKind::Not);
            assert!(
                matches!(&*n.node.expr, ast::Expr::UniOp(inner) if inner.node.kind == UniOpKind::Not)
            );
        }
        _ => panic!("expected UniOp"),
    }
}

#[test]
fn test_not_with_comparison() {
    // NOT a = 1 => NOT (a = 1)
    let expr = parse("NOT a = 1");
    match &expr {
        ast::Expr::UniOp(n) => {
            assert_eq!(n.node.kind, UniOpKind::Not);
            assert!(matches!(
                &*n.node.expr,
                ast::Expr::BinOp(inner) if inner.node.kind == ast::BinOpKind::Eq
            ));
        }
        _ => panic!("expected UniOp"),
    }
}
