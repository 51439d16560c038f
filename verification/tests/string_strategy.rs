#![allow(unused_imports, dead_code)]
use partiql_winnow_parser::ast;
use partiql_winnow_parser::ast::{Lit};
use partiql_winnow_parser::expr::ExprChain;
use partiql_winnow_parser::parse_context::ParseContext;

fn parse(input: &str) -> ast::Expr {
    let s: Vec<char> = input.chars().collect();
    let chain = ExprChain::new();
    let mut pctx = ParseContext::new();
    chain.parse_expr(&s, 0, &mut pctx).expect("parse failed").0
}

fn try_parse(input: &str) -> Result<ast::Expr, ()> {
    let s: Vec<char> = input.chars().collect();
    let chain = ExprChain::new();
    let mut pctx = ParseContext::new();
    chain.parse_expr(&s, 0, &mut pctx).map(|r| r.0).map_err(|_| ())
}

#[test]
fn sql_string_simple() {
    let expr = parse("'hello'");
    assert!(
        matches!(expr, ast::Expr::Lit(n) if matches!(&n.node, Lit::CharStringLit(s) if s == "hello"))
    );
}

#[test]
fn double_quoted_is_case_sensitive_varref() {
    // Double-quoted strings are case-sensitive identifiers in PartiQL, not string literals
    let expr = parse(r#""hello""#);
    assert!(matches!(
        &expr,
        ast::Expr::VarRef(n) if n.node.name.value == "hello"
            && n.node.name.case == ast::CaseSensitivity::CaseSensitive
    ));
}

#[test]
fn double_quoted_dotted_table_name() {
    // "fde.users" is a case-sensitive identifier (the dot is part of the name)
    let expr = parse(r#""fde.users""#);
    assert!(matches!(
        &expr,
        ast::Expr::VarRef(n) if n.node.name.value == "fde.users"
            && n.node.name.case == ast::CaseSensitivity::CaseSensitive
    ));
}

#[test]
fn sql_string_escaped_quote() {
    let expr = parse("'it''s'");
    assert!(
        matches!(expr, ast::Expr::Lit(n) if matches!(&n.node, Lit::CharStringLit(s) if s == "it's"))
    );
}

#[test]
fn sql_string_empty() {
    let expr = parse("''");
    assert!(
        matches!(expr, ast::Expr::Lit(n) if matches!(&n.node, Lit::CharStringLit(s) if s.is_empty()))
    );
}
