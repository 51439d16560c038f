#![allow(unused_imports, dead_code)]
use partiql_winnow_parser::ast::{BinOpKind, Expr, FromSource, JoinKind, JoinSpec};
use partiql_winnow_parser::dql::from_clause::FromClauseParser;
use partiql_winnow_parser::dql::having_clause::HavingClauseParser;
use partiql_winnow_parser::dql::select_parser::SelectParser;
use partiql_winnow_parser::parse_context::ParseContext;

fn setup() -> (SelectParser, ParseContext) {
    (SelectParser::new(), ParseContext::new())
}

fn chars(s: &str) -> Vec<char> {
    s.chars().collect()
}

#[test]
fn test_inner_join_explicit() {
    let (parser, mut pctx) = setup();
    let input = chars("users INNER JOIN orders ON users.id = orders.user_id WHERE");
    let result = FromClauseParser::new(parser.chain())
        .parse(&input, 0, &mut pctx)
        .expect("parse failed").0;
    match &result.node.source {
        FromSource::Join(join) => {
            assert_eq!(join.node.kind, JoinKind::Inner);
            assert!(matches!(
                &join.node.predicate.as_ref().unwrap().node,
                JoinSpec::On(_)
            ));
        }
        other => panic!("expected Join, got {:?}", other),
    }
}

#[test]
fn test_join_implicit_inner() {
    let (parser, mut pctx) = setup();
    let input = chars("users JOIN orders ON users.id = orders.user_id WHERE");
    let result = FromClauseParser::new(parser.chain())
        .parse(&input, 0, &mut pctx)
        .expect("parse failed").0;
    match &result.node.source {
        FromSource::Join(join) => {
            assert_eq!(join.node.kind, JoinKind::Inner);
        }
        other => panic!("expected Join, got {:?}", other),
    }
}
