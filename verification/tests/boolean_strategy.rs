#![allow(unused_imports, dead_code)]
use partiql_winnow_parser::ast;
use partiql_winnow_parser::ast::{Lit};
use partiql_winnow_parser::expr::ExprChain;
use partiql_winnow_parser::parse_context::ParseContext;

fn parse(input: &str) -> ast::Expr {
    let s: Vec<char> = input.chars().collect();
    let chain = ExprChain::new();
    let mut pctx = ParseContext::new();
    chain.parse_expr(&s, 0, &mut pctx).expect("parse failed").0
}

fn try_parse(input: &str) -> Result<ast::Expr, ()> {
    let s: Vec<char> = input.chars().collect();
    let chain = ExprChain::new();
    let mut pctx = ParseContext::new();
    chain.parse_expr(&s, 0, &mut pctx).map(|r| r.0).map_err(|_| ())
}

#[test]
fn true_lowercase() {
    let expr = parse("true");
    assert!(matches!(expr, ast::Expr::Lit(n) if matches!(n.node, Lit::BoolLit(true))));
}

#[test]
fn false_lowercase() {
    let expr = parse("false");
    assert!(matches!(expr, ast::Expr::Lit(n) if matches!(n.node, Lit::BoolLit(false))));
}

#[test]
fn true_uppercase() {
    let expr = parse("TRUE");
    assert!(matches!(expr, ast::Expr::Lit(n) if matches!(n.node, Lit::BoolLit(true))));
}

#[test]
fn false_uppercase() {
    let expr = parse("FALSE");
    assert!(matches!(expr, ast::Expr::Lit(n) if matches!(n.node, Lit::BoolLit(false))));
}

#[test]
fn trueish_rejected() {
    // "trueish" should NOT parse as boolean true — word boundary enforcement
    let result = try_parse("trueish");
    // It may parse as an identifier instead, or fail entirely.
    // The key assertion: it must NOT be BoolLit(true).
    match result {
        Ok(ast::Expr::Lit(n)) => {
            assert!(
                !matches!(n.node, Lit::BoolLit(true)),
                "trueish should not parse as true"
            );
        }
        _ => {} // identifier or error — both acceptable
    }
}
