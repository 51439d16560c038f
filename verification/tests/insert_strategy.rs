#![allow(unused_imports, dead_code)]
use partiql_winnow_parser::ast;
use partiql_winnow_parser::ast::DmlOp;
use partiql_winnow_parser::dml::DmlParser;
use partiql_winnow_parser::expr::ExprChain;
use partiql_winnow_parser::parse_context::ParseContext;

fn parse_dml(input: &str) -> ast::Dml {
    let s: Vec<char> = input.chars().collect();
    let chain = ExprChain::new();
    let mut pctx = ParseContext::new();
    let parser = DmlParser::new(&chain);
    parser.try_parse(&s, 0, &mut pctx).expect("not DML").expect("parse failed").0
}

#[test]
fn test_insert_bag() {
    let dml = parse_dml("INSERT INTO users <<{'email': 'a@co'}>>");
    match &dml.op {
        DmlOp::Insert(ins) => {
            assert!(matches!(&*ins.target, ast::Expr::VarRef(_)));
            assert!(matches!(&*ins.values, ast::Expr::Bag(_)));
        }
        other => panic!("expected Insert, got {:?}", other),
    }
}

#[test]
fn test_insert_quoted_table() {
    let dml = parse_dml(
        "INSERT INTO \"fde.users\" <<{'email': 'user@co', 'name': 'Alice'}>>",
    );
    match &dml.op {
        DmlOp::Insert(ins) => {
            assert!(matches!(&*ins.values, ast::Expr::Bag(_)));
        }
        other => panic!("expected Insert, got {:?}", other),
    }
}

#[test]
fn test_insert_multiple_rows() {
    let dml = parse_dml("INSERT INTO users <<{'email': 'a@co'}, {'email': 'b@co'}>>");
    match &dml.op {
        DmlOp::Insert(ins) => match &*ins.values {
            ast::Expr::Bag(bag) => assert_eq!(bag.node.values.len(), 2),
            other => panic!("expected Bag, got {:?}", other),
        },
        other => panic!("expected Insert, got {:?}", other),
    }
}

#[test]
fn test_insert_fde_pattern() {
    let dml = parse_dml(
        "INSERT INTO \"fde.users\" <<{'email': 'user@co', 'platformData': [{'id': 'abc', 'platform': 'MsTeams'}]}>>",
    );
    match &dml.op {
        DmlOp::Insert(ins) => match &*ins.values {
            ast::Expr::Bag(bag) => {
                assert_eq!(bag.node.values.len(), 1);
                assert!(matches!(&*bag.node.values[0], ast::Expr::Struct(_)));
            }
            other => panic!("expected Bag, got {:?}", other),
        },
        other => panic!("expected Insert, got {:?}", other),
    }
}
