#![allow(unused_imports, dead_code)]
use partiql_winnow_parser::ast;
use partiql_winnow_parser::ast::{Lit};
use partiql_winnow_parser::expr::ExprChain;
use partiql_winnow_parser::parse_context::ParseContext;

fn parse(input: &str) -> ast::Expr {
    let s: Vec<char> = input.chars().collect();
    let chain = ExprChain::new();
    let mut pctx = ParseContext::new();
    chain.parse_expr(&s, 0, &mut pctx).expect("parse failed").0
}

fn try_parse(input: &str) -> Result<ast::Expr, ()> {
    let s: Vec<char> = input.chars().collect();
    let chain = ExprChain::new();
    let mut pctx = ParseContext::new();
    chain.parse_expr(&s, 0, &mut pctx).map(|r| r.0).map_err(|_| ())
}

#[test]
fn test_like() {
    let expr = parse("name LIKE '%foo%'");
    match &expr {
        ast::Expr::Like(n) => {
            assert!(matches!(
                &*n.node.value,
                ast::Expr::VarRef(v) if v.node.name.value == "name"
            ));
            assert!(matches!(
                &*n.node.pattern,
                ast::Expr::Lit(lit) if matches!(&lit.node, Lit::CharStringLit(s) if s == "%foo%")
            ));
        }
        _ => panic!("expected Like"),
    }
}

#[test]
fn test_like_escape() {
    let expr = parse("name LIKE '%\\%%' ESCAPE '\\'");
    assert!(matches!(&expr, ast::Expr::Like(_)));
    if let ast::Expr::Like(n) = &expr {
        assert!(n.node.escape.is_some());
    }
}

#[test]
fn test_not_like() {
    let expr = parse("name NOT LIKE '%foo'");
    match &expr {
        ast::Expr::UniOp(n) => {
            assert_eq!(n.node.kind, ast::UniOpKind::Not);
            match &*n.node.expr {
                ast::Expr::Like(like) => {
                    assert!(matches!(
                        &*like.node.value,
                        ast::Expr::VarRef(v) if v.node.name.value == "name"
                    ));
                }
                _ => panic!("expected Like inside UniOp"),
            }
        }
        _ => panic!("expected UniOp"),
    }
}
