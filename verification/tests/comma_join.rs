#![allow(unused_imports, dead_code)]
use partiql_winnow_parser::ast::{BinOpKind, Expr, FromSource, JoinKind, JoinSpec};
use partiql_winnow_parser::dql::from_clause::FromClauseParser;
use partiql_winnow_parser::dql::having_clause::HavingClauseParser;
use partiql_winnow_parser::dql::select_parser::SelectParser;
use partiql_winnow_parser::parse_context::ParseContext;

fn setup() -> (SelectParser, ParseContext) {
    (SelectParser::new(), ParseContext::new())
}

fn chars(s: &str) -> Vec<char> {
    s.chars().collect()
}

#[test]
fn test_comma_join_two_tables() {
    let (parser, mut pctx) = setup();
    let input = chars("users, orders WHERE");
    let result = FromClauseParser::new(parser.chain())
        .parse(&input, 0, &mut pctx)
        .expect("parse failed").0;
    match &result.node.source {
        FromSource::Join(join) => {
            assert_eq!(join.node.kind, JoinKind::Cross);
            assert!(join.node.predicate.is_none());
        }
        other => panic!("expected Join, got {:?}", other),
    }
}

#[test]
fn test_comma_join_three_tables() {
    let (parser, mut pctx) = setup();
    let input = chars("a, b, c WHERE");
    let result = FromClauseParser::new(parser.chain())
        .parse(&input, 0, &mut pctx)
        .expect("parse failed").0;
    // Left-associative: ((a , b) , c)
    match &result.node.source {
        FromSource::Join(outer) => {
            assert_eq!(outer.node.kind, JoinKind::Cross);
            assert!(matches!(&*outer.node.left, FromSource::Join(_)));
        }
        other => panic!("expected nested Join, got {:?}", other),
    }
}

#[test]
fn comma_join_test_unnest_pattern() {
    // FROM "fde.users" u, u.platformData p
    let (parser, mut pctx) = setup();
    let input = chars("\"fde.users\" u, u.platformData p WHERE");
    let result = FromClauseParser::new(parser.chain())
        .parse(&input, 0, &mut pctx)
        .expect("parse failed").0;
    match &result.node.source {
        FromSource::Join(join) => {
            assert_eq!(join.node.kind, JoinKind::Cross);
            // Left is "fde.users" u
            match &*join.node.left {
                FromSource::FromLet(fl) => {
                    assert_eq!(fl.node.as_alias.as_ref().unwrap().value, "u");
                }
                other => panic!("expected FromLet left, got {:?}", other),
            }
            // Right is u.platformData p (path expression with implicit alias)
            match &*join.node.right {
                FromSource::FromLet(fl) => {
                    assert_eq!(fl.node.as_alias.as_ref().unwrap().value, "p");
                }
                other => panic!("expected FromLet right, got {:?}", other),
            }
        }
        other => panic!("expected Join, got {:?}", other),
    }
}
