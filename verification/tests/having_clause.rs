#![allow(unused_imports, dead_code)]
use partiql_winnow_parser::ast::{BinOpKind, Expr, FromSource, JoinKind, JoinSpec};
use partiql_winnow_parser::dql::from_clause::FromClauseParser;
use partiql_winnow_parser::dql::having_clause::HavingClauseParser;
use partiql_winnow_parser::dql::select_parser::SelectParser;
use partiql_winnow_parser::parse_context::ParseContext;

fn setup() -> (SelectParser, ParseContext) {
    (SelectParser::new(), ParseContext::new())
}

fn chars(s: &str) -> Vec<char> {
    s.chars().collect()
}

#[test]
fn test_simple_having() {
    let (parser, mut pctx) = setup();
    let input = chars("COUNT(*) > 5");
    let result = HavingClauseParser::new(parser.chain())
        .parse(&input, 0, &mut pctx)
        .expect("parse failed").0;
    match &*result.node.expr {
        Expr::BinOp(n) => assert_eq!(n.node.kind, BinOpKind::Gt),
        _ => panic!("expected BinOp"),
    }
}

#[test]
fn test_having_with_and() {
    let (parser, mut pctx) = setup();
    let input = chars("COUNT(*) > 5 AND SUM(amount) < 1000");
    let result = HavingClauseParser::new(parser.chain())
        .parse(&input, 0, &mut pctx)
        .expect("parse failed").0;
    match &*result.node.expr {
        Expr::BinOp(n) => assert_eq!(n.node.kind, BinOpKind::And),
        _ => panic!("expected BinOp"),
    }
}
