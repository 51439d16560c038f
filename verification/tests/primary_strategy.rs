#![allow(unused_imports, dead_code)]
use partiql_winnow_parser::ast;
use partiql_winnow_parser::ast::{CallArg, Lit};
use partiql_winnow_parser::expr::ExprChain;
use partiql_winnow_parser::parse_context::ParseContext;

fn parse(input: &str) -> ast::Expr {
    let s: Vec<char> = input.chars().collect();
    let chain = ExprChain::new();
    let mut pctx = ParseContext::new();
    chain.parse_expr(&s, 0, &mut pctx).expect("parse failed").0
}

fn try_parse(input: &str) -> Result<ast::Expr, ()> {
    let s: Vec<char> = input.chars().collect();
    let chain = ExprChain::new();
    let mut pctx = ParseContext::new();
    chain.parse_expr(&s, 0, &mut pctx).map(|r| r.0).map_err(|_| ())
}

#[test]
fn test_integer() {
    assert!(matches!(
        parse("42"),
        ast::Expr::Lit(n) if matches!(n.node, Lit::Int64Lit(42))
    ));
}

#[test]
fn test_sql_string() {
    assert!(matches!(
        &parse("'hello'"),
        ast::Expr::Lit(n) if matches!(&n.node, Lit::CharStringLit(s) if s == "hello")
    ));
}

#[test]
fn primary_strategy_test_quoted_identifier() {
    // Double-quoted strings are case-sensitive identifiers, not string literals
    assert!(matches!(
        &parse(r#""hello""#),
        ast::Expr::VarRef(n) if n.node.name.value == "hello"
            && n.node.name.case == ast::CaseSensitivity::CaseSensitive
    ));
}

#[test]
fn test_bool_true() {
    assert!(matches!(
        parse("true"),
        ast::Expr::Lit(n) if matches!(n.node, Lit::BoolLit(true))
    ));
}

#[test]
fn test_bool_false_uppercase() {
    assert!(matches!(
        parse("FALSE"),
        ast::Expr::Lit(n) if matches!(n.node, Lit::BoolLit(false))
    ));
}

#[test]
fn test_bool_word_boundary() {
    assert!(matches!(
        &parse("trueish"),
        ast::Expr::VarRef(n) if n.node.name.value == "trueish"
    ));
}

#[test]
fn test_null() {
    assert!(matches!(
        parse("null"),
        ast::Expr::Lit(n) if matches!(n.node, Lit::Null)
    ));
}

#[test]
fn primary_strategy_test_missing() {
    assert!(matches!(
        parse("MISSING"),
        ast::Expr::Lit(n) if matches!(n.node, Lit::Missing)
    ));
}

#[test]
fn test_identifier() {
    assert!(matches!(
        &parse("users"),
        ast::Expr::VarRef(n) if n.node.name.value == "users"
    ));
}

#[test]
fn test_parenthesized() {
    assert!(matches!(
        parse("(42)"),
        ast::Expr::Lit(n) if matches!(n.node, Lit::Int64Lit(42))
    ));
}

#[test]
fn test_decimal() {
    assert!(matches!(
        parse("3.14"),
        ast::Expr::Lit(n) if matches!(n.node, Lit::DecimalLit(_))
    ));
}

// ── Expression chain tests (all strategies) ──────────────

#[test]
fn test_addition() {
    let e = parse("1 + 2");
    assert!(matches!(
        &e,
        ast::Expr::BinOp(n) if n.node.kind == ast::BinOpKind::Add
    ));
}

#[test]
fn test_subtraction() {
    let e = parse("5 - 3");
    assert!(matches!(
        &e,
        ast::Expr::BinOp(n) if n.node.kind == ast::BinOpKind::Sub
    ));
}

#[test]
fn test_multiplication() {
    let e = parse("2 * 3");
    assert!(matches!(
        &e,
        ast::Expr::BinOp(n) if n.node.kind == ast::BinOpKind::Mul
    ));
}

#[test]
fn test_comparison_eq() {
    let e = parse("a = 1");
    assert!(matches!(
        &e,
        ast::Expr::BinOp(n) if n.node.kind == ast::BinOpKind::Eq
    ));
}

#[test]
fn test_comparison_neq() {
    let e = parse("a != 1");
    assert!(matches!(
        &e,
        ast::Expr::BinOp(n) if n.node.kind == ast::BinOpKind::Ne
    ));
}

#[test]
fn test_and() {
    let e = parse("a = 1 AND b = 2");
    assert!(matches!(
        &e,
        ast::Expr::BinOp(n) if n.node.kind == ast::BinOpKind::And
    ));
}

#[test]
fn test_or() {
    let e = parse("a = 1 OR b = 2");
    assert!(matches!(
        &e,
        ast::Expr::BinOp(n) if n.node.kind == ast::BinOpKind::Or
    ));
}

#[test]
fn primary_strategy_test_not() {
    let e = parse("NOT true");
    assert!(matches!(
        &e,
        ast::Expr::UniOp(n) if n.node.kind == ast::UniOpKind::Not
    ));
}

/// Negative integer literals are parsed as `UniOp(Neg, Int64Lit(n))`
/// (LALRPOP behaves the same way). Downstream consumers — the logical
/// planner / evaluator — fold this at runtime via `EvalOpUnary::Neg`.
/// Any AST→value direct conversion (e.g. FDE's Ion-native DML path)
/// must therefore handle the unfolded `UniOp(Neg, Lit)` shape.
#[test]
fn test_negative_integer_literal() {
    let e = parse("-1");
    match &e {
        ast::Expr::UniOp(n) => {
            assert_eq!(n.node.kind, ast::UniOpKind::Neg);
            match &*n.node.expr {
                ast::Expr::Lit(lit) => assert!(
                    matches!(lit.node, Lit::Int64Lit(1)),
                    "expected Int64Lit(1), got {:?}",
                    lit.node
                ),
                other => panic!("expected Lit inside UniOp, got {:?}", other),
            }
        }
        other => panic!("expected UniOp(Neg, Lit), got {:?}", other),
    }
}

#[test]
fn test_negative_decimal_literal() {
    let e = parse("-3.14");
    match &e {
        ast::Expr::UniOp(n) => {
            assert_eq!(n.node.kind, ast::UniOpKind::Neg);
            assert!(matches!(*n.node.expr, ast::Expr::Lit(_)));
        }
        other => panic!("expected UniOp(Neg, Lit), got {:?}", other),
    }
}

#[test]
fn test_path_dot() {
    let e = parse("a.b");
    assert!(matches!(&e, ast::Expr::Path(_)));
}

#[test]
fn test_path_bracket() {
    let e = parse("a[0]");
    assert!(matches!(&e, ast::Expr::Path(_)));
}

/// `u.*` is the PathUnpivot step — it emits all fields of `u` as a
/// tuple splat. LALRPOP supports it; the winnow parser must produce
/// the same shape so the logical planner can lower both consistently.
#[test]
fn test_path_dot_star_unpivot() {
    let e = parse("u.*");
    match &e {
        ast::Expr::Path(p) => {
            assert!(matches!(*p.node.root, ast::Expr::VarRef(_)));
            assert_eq!(p.node.steps.len(), 1);
            assert!(matches!(p.node.steps[0], ast::PathStep::PathUnpivot));
        }
        other => panic!("expected Path with PathUnpivot step, got {:?}", other),
    }
}

/// `a[*]` is the PathForEach step — iterate over all elements of a list.
#[test]
fn test_path_bracket_star_for_each() {
    let e = parse("a[*]");
    match &e {
        ast::Expr::Path(p) => {
            assert_eq!(p.node.steps.len(), 1);
            assert!(matches!(p.node.steps[0], ast::PathStep::PathForEach));
        }
        other => panic!("expected Path with PathForEach step, got {:?}", other),
    }
}

#[test]
fn test_precedence_mul_over_add() {
    // 1 + 2 * 3 should parse as 1 + (2 * 3)
    let e = parse("1 + 2 * 3");
    if let ast::Expr::BinOp(node) = &e {
        assert_eq!(node.node.kind, ast::BinOpKind::Add);
        assert!(matches!(*node.node.rhs, ast::Expr::BinOp(_)));
    } else {
        panic!("Expected BinOp, got {:?}", e);
    }
}

#[test]
fn test_precedence_and_over_or() {
    // a OR b AND c should parse as a OR (b AND c)
    let e = parse("a OR b AND c");
    if let ast::Expr::BinOp(node) = &e {
        assert_eq!(node.node.kind, ast::BinOpKind::Or);
    } else {
        panic!("Expected BinOp(Or), got {:?}", e);
    }
}

#[test]
fn primary_strategy_test_concat() {
    let e = parse("'a' || 'b'");
    if let ast::Expr::BinOp(node) = &e {
        assert_eq!(node.node.kind, ast::BinOpKind::Concat);
    } else {
        panic!("Expected Concat");
    }
}

#[test]
fn test_complex_where() {
    // Real FDE query pattern
    let e = parse("u.email = 'test@co.com' AND p.originalPlatformId = 'GChat'");
    assert!(matches!(e, ast::Expr::BinOp(_)));
}

// ── Function call tests ──────────────

#[test]
fn test_call_no_args() {
    let e = parse("NOW()");
    assert!(matches!(&e, ast::Expr::Call(_)));
    if let ast::Expr::Call(n) = &e {
        assert_eq!(n.node.func_name.value, "NOW");
        assert!(n.node.args.is_empty());
    }
}

#[test]
fn test_call_agg_star() {
    // COUNT is an aggregate — produces CallAgg, not Call
    let e = parse("COUNT(*)");
    assert!(matches!(&e, ast::Expr::CallAgg(_)));
    if let ast::Expr::CallAgg(n) = &e {
        assert_eq!(n.node.func_name.value, "COUNT");
        assert_eq!(n.node.args.len(), 1);
        assert!(matches!(n.node.args[0].node, CallArg::Star()));
    }
}

#[test]
fn test_call_single_arg() {
    let e = parse("UPPER('hello')");
    assert!(matches!(&e, ast::Expr::Call(_)));
    if let ast::Expr::Call(n) = &e {
        assert_eq!(n.node.func_name.value, "UPPER");
        assert_eq!(n.node.args.len(), 1);
    }
}

#[test]
fn test_call_multiple_args() {
    let e = parse("SUBSTRING(name, 1, 3)");
    assert!(matches!(&e, ast::Expr::Call(_)));
    if let ast::Expr::Call(n) = &e {
        assert_eq!(n.node.func_name.value, "SUBSTRING");
        assert_eq!(n.node.args.len(), 3);
    }
}

#[test]
fn test_call_nested() {
    let e = parse("UPPER(TRIM(name))");
    assert!(matches!(&e, ast::Expr::Call(_)));
    if let ast::Expr::Call(n) = &e {
        assert_eq!(n.node.func_name.value, "UPPER");
        assert_eq!(n.node.args.len(), 1);
    }
}

#[test]
fn test_call_args_in_order() {
    let e = parse("f(1, b + 2)");
    match &e {
        ast::Expr::Call(n) => {
            assert_eq!(n.node.func_name.value, "f");
            assert!(matches!(n.node.func_name.case, ast::CaseSensitivity::CaseInsensitive));
            assert_eq!(n.node.args.len(), 2);
            match &n.node.args[0].node {
                CallArg::Positional(x) => assert!(matches!(&**x, ast::Expr::Lit(l) if matches!(l.node, Lit::Int64Lit(1)))),
                _ => panic!("expected a positional argument"),
            }
            match &n.node.args[1].node {
                CallArg::Positional(x) => assert!(matches!(&**x, ast::Expr::BinOp(b) if matches!(b.node.kind, ast::BinOpKind::Add))),
                _ => panic!("expected a positional argument"),
            }
        },
        _ => panic!("expected a call"),
    }
}

#[test]
fn test_count_star_name_case_insensitive() {
    match parse("count(*)") {
        ast::Expr::CallAgg(n) => {
            assert_eq!(n.node.func_name.value, "count");
            assert!(matches!(n.node.func_name.case, ast::CaseSensitivity::CaseInsensitive));
        },
        _ => panic!("expected an aggregate call"),
    }
}
