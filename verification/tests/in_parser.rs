#![allow(unused_imports, dead_code)]
use partiql_winnow_parser::ast;
use partiql_winnow_parser::ast::{Lit};
use partiql_winnow_parser::expr::ExprChain;
use partiql_winnow_parser::parse_context::ParseContext;

fn parse(input: &str) -> ast::Expr {
    let s: Vec<char> = input.chars().collect();
    let chain = ExprChain::new();
    let mut pctx = ParseContext::new();
    chain.parse_expr(&s, 0, &mut pctx).expect("parse failed").0
}

fn try_parse(input: &str) -> Result<ast::Expr, ()> {
    let s: Vec<char> = input.chars().collect();
    let chain = ExprChain::new();
    let mut pctx = ParseContext::new();
    chain.parse_expr(&s, 0, &mut pctx).map(|r| r.0).map_err(|_| ())
}

#[test]
fn test_in_list() {
    let expr = parse("x IN (1, 2, 3)");
    match &expr {
        ast::Expr::In(n) => {
            assert!(matches!(
                &*n.node.lhs,
                ast::Expr::VarRef(v) if v.node.name.value == "x"
            ));
            match &*n.node.rhs {
                ast::Expr::List(list) => assert_eq!(list.node.values.len(), 3),
                _ => panic!("expected List rhs"),
            }
        }
        _ => panic!("expected In"),
    }
}

#[test]
fn test_in_single() {
    let expr = parse("x IN (1)");
    match &expr {
        ast::Expr::In(n) => {
            assert!(matches!(
                &*n.node.lhs,
                ast::Expr::VarRef(v) if v.node.name.value == "x"
            ));
            match &*n.node.rhs {
                ast::Expr::List(list) => assert_eq!(list.node.values.len(), 1),
                _ => panic!("expected List rhs"),
            }
        }
        _ => panic!("expected In"),
    }
}

#[test]
fn test_in_strings() {
    let expr = parse("name IN ('Alice', 'Bob')");
    match &expr {
        ast::Expr::In(n) => {
            assert!(matches!(
                &*n.node.lhs,
                ast::Expr::VarRef(v) if v.node.name.value == "name"
            ));
            match &*n.node.rhs {
                ast::Expr::List(list) => {
                    assert_eq!(list.node.values.len(), 2);
                    assert!(matches!(
                        &*list.node.values[0],
                        ast::Expr::Lit(lit) if matches!(&lit.node, Lit::CharStringLit(s) if s == "Alice")
                    ));
                    assert!(matches!(
                        &*list.node.values[1],
                        ast::Expr::Lit(lit) if matches!(&lit.node, Lit::CharStringLit(s) if s == "Bob")
                    ));
                }
                _ => panic!("expected List rhs"),
            }
        }
        _ => panic!("expected In"),
    }
}

#[test]
fn test_not_in() {
    let expr = parse("x NOT IN (1, 2)");
    match &expr {
        ast::Expr::UniOp(n) => {
            assert_eq!(n.node.kind, ast::UniOpKind::Not);
            match &*n.node.expr {
                ast::Expr::In(inner) => {
                    assert!(matches!(
                        &*inner.node.lhs,
                        ast::Expr::VarRef(v) if v.node.name.value == "x"
                    ));
                    match &*inner.node.rhs {
                        ast::Expr::List(list) => assert_eq!(list.node.values.len(), 2),
                        _ => panic!("expected List rhs"),
                    }
                }
                _ => panic!("expected In inside UniOp"),
            }
        }
        _ => panic!("expected UniOp"),
    }
}
