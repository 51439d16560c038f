#![allow(unused_imports, dead_code)]
use partiql_winnow_parser::ast;
use partiql_winnow_parser::ast::{Lit};
use partiql_winnow_parser::expr::ExprChain;
use partiql_winnow_parser::parse_context::ParseContext;

fn parse(input: &str) -> ast::Expr {
    let s: Vec<char> = input.chars().collect();
    let chain = ExprChain::new();
    let mut pctx = ParseContext::new();
    chain.parse_expr(&s, 0, &mut pctx).expect("parse failed").0
}

fn try_parse(input: &str) -> Result<ast::Expr, ()> {
    let s: Vec<char> = input.chars().collect();
    let chain = ExprChain::new();
    let mut pctx = ParseContext::new();
    chain.parse_expr(&s, 0, &mut pctx).map(|r| r.0).map_err(|_| ())
}

#[test]
fn test_between() {
    let expr = parse("x BETWEEN 1 AND 10");
    match &expr {
        ast::Expr::Between(n) => {
            assert!(matches!(
                &*n.node.value,
                ast::Expr::VarRef(v) if v.node.name.value == "x"
            ));
            assert!(matches!(
                &*n.node.from,
                ast::Expr::Lit(lit) if matches!(lit.node, Lit::Int64Lit(1))
            ));
            assert!(matches!(
                &*n.node.to,
                ast::Expr::Lit(lit) if matches!(lit.node, Lit::Int64Lit(10))
            ));
        }
        _ => panic!("expected Between"),
    }
}

#[test]
fn test_between_expressions() {
    let expr = parse("age BETWEEN 18 AND 65");
    match &expr {
        ast::Expr::Between(n) => {
            assert!(matches!(
                &*n.node.value,
                ast::Expr::VarRef(v) if v.node.name.value == "age"
            ));
            assert!(matches!(
                &*n.node.from,
                ast::Expr::Lit(lit) if matches!(lit.node, Lit::Int64Lit(18))
            ));
            assert!(matches!(
                &*n.node.to,
                ast::Expr::Lit(lit) if matches!(lit.node, Lit::Int64Lit(65))
            ));
        }
        _ => panic!("expected Between"),
    }
}

#[test]
fn test_not_between() {
    let expr = parse("x NOT BETWEEN 1 AND 10");
    assert!(matches!(&expr, ast::Expr::UniOp(_)));
    if let ast::Expr::UniOp(n) = &expr {
        assert!(matches!(&*n.node.expr, ast::Expr::Between(_)));
    }
}
