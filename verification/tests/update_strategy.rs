#![allow(unused_imports, dead_code)]
use partiql_winnow_parser::ast;
use partiql_winnow_parser::ast::DmlOp;
use partiql_winnow_parser::dml::DmlParser;
use partiql_winnow_parser::expr::ExprChain;
use partiql_winnow_parser::parse_context::ParseContext;

fn parse_dml(input: &str) -> ast::Dml {
    let s: Vec<char> = input.chars().collect();
    let chain = ExprChain::new();
    let mut pctx = ParseContext::new();
    let parser = DmlParser::new(&chain);
    parser.try_parse(&s, 0, &mut pctx).expect("not DML").expect("parse failed").0
}

#[test]
fn test_update_set() {
    let dml = parse_dml("UPDATE users SET name = 'Bob' WHERE email = 'a@co'");
    assert!(matches!(&dml.op, DmlOp::Update(_)));
    assert!(dml.from_clause.is_some());
    assert!(dml.where_clause.is_some());
}

#[test]
fn test_update_without_where() {
    let dml = parse_dml("UPDATE users SET active = true");
    assert!(matches!(&dml.op, DmlOp::Update(_)));
    assert!(dml.where_clause.is_none());
}
