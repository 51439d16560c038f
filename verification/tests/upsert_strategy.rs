#![allow(unused_imports, dead_code)]
use partiql_winnow_parser::ast;
use partiql_winnow_parser::ast::DmlOp;
use partiql_winnow_parser::dml::DmlParser;
use partiql_winnow_parser::expr::ExprChain;
use partiql_winnow_parser::parse_context::ParseContext;

fn parse_dml(input: &str) -> ast::Dml {
    let s: Vec<char> = input.chars().collect();
    let chain = ExprChain::new();
    let mut pctx = ParseContext::new();
    let parser = DmlParser::new(&chain);
    parser.try_parse(&s, 0, &mut pctx).expect("not DML").expect("parse failed").0
}

#[test]
fn upsert_strategy_test_upsert() {
    let dml = parse_dml("UPSERT INTO users <<{'email': 'a@co'}>>");
    match &dml.op {
        DmlOp::Insert(ins) => {
            assert!(matches!(&*ins.values, ast::Expr::Bag(_)));
        }
        other => panic!("expected Insert (via UPSERT), got {:?}", other),
    }
}
