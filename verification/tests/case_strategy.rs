#![allow(unused_imports, dead_code)]
use partiql_winnow_parser::ast;
use partiql_winnow_parser::ast::{Case};
use partiql_winnow_parser::expr::ExprChain;
use partiql_winnow_parser::parse_context::ParseContext;

fn parse(input: &str) -> ast::Expr {
    let s: Vec<char> = input.chars().collect();
    let chain = ExprChain::new();
    let mut pctx = ParseContext::new();
    chain.parse_expr(&s, 0, &mut pctx).expect("parse failed").0
}

fn try_parse(input: &str) -> Result<ast::Expr, ()> {
    let s: Vec<char> = input.chars().collect();
    let chain = ExprChain::new();
    let mut pctx = ParseContext::new();
    chain.parse_expr(&s, 0, &mut pctx).map(|r| r.0).map_err(|_| ())
}

#[test]
fn test_searched_case() {
    let expr = parse("CASE WHEN x = 1 THEN 'one' WHEN x = 2 THEN 'two' END");
    match &expr {
        ast::Expr::Case(n) => match &n.node {
            Case::SearchedCase(sc) => {
                assert_eq!(sc.cases.len(), 2);
                assert!(sc.default.is_none());
            }
            other => panic!("expected SearchedCase, got {:?}", other),
        },
        other => panic!("expected Case, got {:?}", other),
    }
}

#[test]
fn test_searched_case_with_else() {
    let expr = parse("CASE WHEN status = 'active' THEN 'yes' ELSE 'no' END");
    match &expr {
        ast::Expr::Case(n) => match &n.node {
            Case::SearchedCase(sc) => {
                assert_eq!(sc.cases.len(), 1);
                assert!(sc.default.is_some());
            }
            other => panic!("expected SearchedCase, got {:?}", other),
        },
        other => panic!("expected Case, got {:?}", other),
    }
}

#[test]
fn test_simple_case() {
    let expr = parse("CASE status WHEN 'active' THEN 1 WHEN 'inactive' THEN 0 ELSE -1 END");
    match &expr {
        ast::Expr::Case(n) => match &n.node {
            Case::SimpleCase(sc) => {
                assert_eq!(sc.cases.len(), 2);
                assert!(sc.default.is_some());
                assert!(matches!(&*sc.expr, ast::Expr::VarRef(_)));
            }
            other => panic!("expected SimpleCase, got {:?}", other),
        },
        other => panic!("expected Case, got {:?}", other),
    }
}
