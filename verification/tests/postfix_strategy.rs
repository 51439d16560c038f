#![allow(unused_imports, dead_code)]
use partiql_winnow_parser::ast;
use partiql_winnow_parser::ast::{Lit, PathStep};
use partiql_winnow_parser::expr::ExprChain;
use partiql_winnow_parser::parse_context::ParseContext;

fn parse(input: &str) -> ast::Expr {
    let s: Vec<char> = input.chars().collect();
    let chain = ExprChain::new();
    let mut pctx = ParseContext::new();
    chain.parse_expr(&s, 0, &mut pctx).expect("parse failed").0
}

fn try_parse(input: &str) -> Result<ast::Expr, ()> {
    let s: Vec<char> = input.chars().collect();
    let chain = ExprChain::new();
    let mut pctx = ParseContext::new();
    chain.parse_expr(&s, 0, &mut pctx).map(|r| r.0).map_err(|_| ())
}

#[test]
fn test_dot_access() {
    // a.b => Path with one step
    let expr = parse("a.b");
    match &expr {
        ast::Expr::Path(n) => {
            assert!(matches!(
                &*n.node.root,
                ast::Expr::VarRef(v) if v.node.name.value == "a"
            ));
            assert_eq!(n.node.steps.len(), 1);
            match &n.node.steps[0] {
                PathStep::PathProject(pe) => {
                    assert!(matches!(
                        &*pe.index,
                        ast::Expr::Lit(lit) if matches!(&lit.node, Lit::CharStringLit(s) if s == "b")
                    ));
                }
                _ => panic!("expected PathProject"),
            }
        }
        _ => panic!("expected Path"),
    }
}

#[test]
fn test_chained_dot_access() {
    // a.b.c => Path with two steps
    let expr = parse("a.b.c");
    match &expr {
        ast::Expr::Path(n) => {
            assert_eq!(n.node.steps.len(), 2);
        }
        _ => panic!("expected Path"),
    }
}

#[test]
fn test_bracket_access() {
    // a[0] => Path with one index step
    let expr = parse("a[0]");
    match &expr {
        ast::Expr::Path(n) => {
            assert!(matches!(
                &*n.node.root,
                ast::Expr::VarRef(v) if v.node.name.value == "a"
            ));
            assert_eq!(n.node.steps.len(), 1);
            assert!(matches!(&n.node.steps[0], PathStep::PathIndex(_)));
        }
        _ => panic!("expected Path"),
    }
}

#[test]
fn test_mixed_access() {
    // a.b[0].c => Path with three steps
    let expr = parse("a.b[0].c");
    match &expr {
        ast::Expr::Path(n) => {
            assert_eq!(n.node.steps.len(), 3);
        }
        _ => panic!("expected Path"),
    }
}
