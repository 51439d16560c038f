#![allow(unused_imports, dead_code)]
use partiql_winnow_parser::ast;
use partiql_winnow_parser::ast::{BinOpKind};
use partiql_winnow_parser::expr::ExprChain;
use partiql_winnow_parser::parse_context::ParseContext;

fn parse(input: &str) -> ast::Expr {
    let s: Vec<char> = input.chars().collect();
    let chain = ExprChain::new();
    let mut pctx = ParseContext::new();
    chain.parse_expr(&s, 0, &mut pctx).expect("parse failed").0
}

fn try_parse(input: &str) -> Result<ast::Expr, ()> {
    let s: Vec<char> = input.chars().collect();
    let chain = ExprChain::new();
    let mut pctx = ParseContext::new();
    chain.parse_expr(&s, 0, &mut pctx).map(|r| r.0).map_err(|_| ())
}

#[test]
fn test_is_null() {
    let expr = parse("x IS NULL");
    match &expr {
        ast::Expr::BinOp(n) => {
            assert_eq!(n.node.kind, BinOpKind::Is);
            assert!(matches!(
                &*n.node.lhs,
                ast::Expr::VarRef(v) if v.node.name.value == "x"
            ));
            assert!(matches!(
                &*n.node.rhs,
                ast::Expr::Lit(lit) if matches!(lit.node, ast::Lit::Null)
            ));
        }
        _ => panic!("expected BinOp"),
    }
}

#[test]
fn test_is_not_null() {
    let expr = parse("x IS NOT NULL");
    match &expr {
        ast::Expr::UniOp(n) => {
            assert_eq!(n.node.kind, ast::UniOpKind::Not);
            match &*n.node.expr {
                ast::Expr::BinOp(b) => {
                    assert_eq!(b.node.kind, BinOpKind::Is);
                    assert!(matches!(
                        &*b.node.lhs,
                        ast::Expr::VarRef(v) if v.node.name.value == "x"
                    ));
                    assert!(matches!(
                        &*b.node.rhs,
                        ast::Expr::Lit(lit) if matches!(lit.node, ast::Lit::Null)
                    ));
                }
                _ => panic!("expected BinOp inside UniOp"),
            }
        }
        _ => panic!("expected UniOp"),
    }
}

#[test]
fn test_is_missing() {
    let expr = parse("x IS MISSING");
    match &expr {
        ast::Expr::BinOp(n) => {
            assert_eq!(n.node.kind, BinOpKind::Is);
            assert!(matches!(
                &*n.node.lhs,
                ast::Expr::VarRef(v) if v.node.name.value == "x"
            ));
            assert!(matches!(
                &*n.node.rhs,
                ast::Expr::Lit(lit) if matches!(lit.node, ast::Lit::Missing)
            ));
        }
        _ => panic!("expected BinOp"),
    }
}

#[test]
fn test_is_not_missing() {
    let expr = parse("x IS NOT MISSING");
    match &expr {
        ast::Expr::UniOp(n) => {
            assert_eq!(n.node.kind, ast::UniOpKind::Not);
            match &*n.node.expr {
                ast::Expr::BinOp(b) => {
                    assert_eq!(b.node.kind, BinOpKind::Is);
                    assert!(matches!(
                        &*b.node.lhs,
                        ast::Expr::VarRef(v) if v.node.name.value == "x"
                    ));
                    assert!(matches!(
                        &*b.node.rhs,
                        ast::Expr::Lit(lit) if matches!(lit.node, ast::Lit::Missing)
                    ));
                }
                _ => panic!("expected BinOp inside UniOp"),
            }
        }
        _ => panic!("expected UniOp"),
    }
}
