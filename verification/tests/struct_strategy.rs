#![allow(unused_imports, dead_code)]
use partiql_winnow_parser::ast;
use partiql_winnow_parser::ast::{Lit};
use partiql_winnow_parser::expr::ExprChain;
use partiql_winnow_parser::parse_context::ParseContext;

fn parse(input: &str) -> ast::Expr {
    let s: Vec<char> = input.chars().collect();
    let chain = ExprChain::new();
    let mut pctx = ParseContext::new();
    chain.parse_expr(&s, 0, &mut pctx).expect("parse failed").0
}

fn try_parse(input: &str) -> Result<ast::Expr, ()> {
    let s: Vec<char> = input.chars().collect();
    let chain = ExprChain::new();
    let mut pctx = ParseContext::new();
    chain.parse_expr(&s, 0, &mut pctx).map(|r| r.0).map_err(|_| ())
}

#[test]
fn test_empty_struct() {
    let expr = parse("{}");
    match &expr {
        ast::Expr::Struct(n) => assert_eq!(n.node.fields.len(), 0),
        other => panic!("expected Struct, got {:?}", other),
    }
}

#[test]
fn test_single_field() {
    let expr = parse("{'name': 'Alice'}");
    match &expr {
        ast::Expr::Struct(n) => {
            assert_eq!(n.node.fields.len(), 1);
            assert!(matches!(
                &*n.node.fields[0].first,
                ast::Expr::Lit(l) if matches!(&l.node, Lit::CharStringLit(s) if s == "name")
            ));
            assert!(matches!(
                &*n.node.fields[0].second,
                ast::Expr::Lit(l) if matches!(&l.node, Lit::CharStringLit(s) if s == "Alice")
            ));
        }
        other => panic!("expected Struct, got {:?}", other),
    }
}

#[test]
fn test_multiple_fields() {
    let expr = parse("{'email': 'a@co', 'age': 30, 'active': true}");
    match &expr {
        ast::Expr::Struct(n) => {
            assert_eq!(n.node.fields.len(), 3);
        }
        other => panic!("expected Struct, got {:?}", other),
    }
}

#[test]
fn test_nested_struct() {
    let expr = parse("{'user': {'name': 'Bob'}}");
    match &expr {
        ast::Expr::Struct(n) => {
            assert_eq!(n.node.fields.len(), 1);
            assert!(matches!(&*n.node.fields[0].second, ast::Expr::Struct(_)));
        }
        other => panic!("expected Struct, got {:?}", other),
    }
}

#[test]
fn test_struct_with_list() {
    let expr = parse("{'tags': ['a', 'b'], 'count': 2}");
    match &expr {
        ast::Expr::Struct(n) => {
            assert_eq!(n.node.fields.len(), 2);
            assert!(matches!(&*n.node.fields[0].second, ast::Expr::List(_)));
        }
        other => panic!("expected Struct, got {:?}", other),
    }
}

#[test]
fn test_double_quoted_key_is_string_literal() {
    // "key" in struct context is a string literal, not an identifier
    // Values use single quotes (PartiQL string literals)
    let expr = parse(r#"{"name": 'Alice'}"#);
    match &expr {
        ast::Expr::Struct(n) => {
            assert_eq!(n.node.fields.len(), 1);
            // Key: "name" → CharStringLit("name")
            assert!(matches!(
                &*n.node.fields[0].first,
                ast::Expr::Lit(l) if matches!(&l.node, Lit::CharStringLit(s) if s == "name")
            ));
            // Value: 'Alice' → CharStringLit("Alice")
            assert!(matches!(
                &*n.node.fields[0].second,
                ast::Expr::Lit(l) if matches!(&l.node, Lit::CharStringLit(s) if s == "Alice")
            ));
        }
        other => panic!("expected Struct, got {:?}", other),
    }
}

#[test]
fn test_double_quoted_value_is_string_literal() {
    // "Alice" as a VALUE in struct context is a string literal (Ion compat)
    let expr = parse(r#"{'name': "Alice"}"#);
    match &expr {
        ast::Expr::Struct(n) => {
            assert_eq!(n.node.fields.len(), 1);
            assert!(matches!(
                &*n.node.fields[0].second,
                ast::Expr::Lit(l) if matches!(&l.node, Lit::CharStringLit(s) if s == "Alice")
            ));
        }
        other => panic!("expected Struct, got {:?}", other),
    }
}

#[test]
fn test_unquoted_key_is_string_literal() {
    // Unquoted key in struct context is also a string literal
    let expr = parse("{name: 'Alice'}");
    match &expr {
        ast::Expr::Struct(n) => {
            assert_eq!(n.node.fields.len(), 1);
            assert!(matches!(
                &*n.node.fields[0].first,
                ast::Expr::Lit(l) if matches!(&l.node, Lit::CharStringLit(s) if s == "name")
            ));
        }
        other => panic!("expected Struct, got {:?}", other),
    }
}

#[test]
fn test_mixed_key_styles() {
    // Mix of 'single', "double", and unquoted keys
    let expr = parse(r#"{'a': 1, "b": 2, c: 3}"#);
    match &expr {
        ast::Expr::Struct(n) => {
            assert_eq!(n.node.fields.len(), 3);
            // All keys should be string literals
            for (i, expected) in ["a", "b", "c"].iter().enumerate() {
                assert!(matches!(
                    &*n.node.fields[i].first,
                    ast::Expr::Lit(l) if matches!(&l.node, Lit::CharStringLit(s) if s == *expected)
                ), "key {i} should be CharStringLit({expected})");
            }
        }
        other => panic!("expected Struct, got {:?}", other),
    }
}

#[test]
fn test_ion_string_key_with_dots() {
    // "fde.users" as a struct key
    let expr = parse(r#"{"fde.users": 'value'}"#);
    match &expr {
        ast::Expr::Struct(n) => {
            assert_eq!(n.node.fields.len(), 1);
            assert!(matches!(
                &*n.node.fields[0].first,
                ast::Expr::Lit(l) if matches!(&l.node, Lit::CharStringLit(s) if s == "fde.users")
            ));
        }
        other => panic!("expected Struct, got {:?}", other),
    }
}

#[test]
fn test_fde_insert_pattern() {
    // Real FDE INSERT data pattern
    let expr = parse("{'email': 'user@co', 'platformData': [{'id': 'abc', 'platform': 'MsTeams'}]}");
    match &expr {
        ast::Expr::Struct(n) => {
            assert_eq!(n.node.fields.len(), 2);
            // platformData value is a list containing a struct
            match &*n.node.fields[1].second {
                ast::Expr::List(list) => {
                    assert_eq!(list.node.values.len(), 1);
                    assert!(matches!(&*list.node.values[0], ast::Expr::Struct(_)));
                }
                other => panic!("expected List, got {:?}", other),
            }
        }
        other => panic!("expected Struct, got {:?}", other),
    }
}
