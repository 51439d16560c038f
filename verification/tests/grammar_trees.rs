#![allow(unused_imports, dead_code)]
use partiql_winnow_parser::ast::{
    BinOpKind, CallArg, ConflictAction, ConflictTarget, DmlOp, Expr, ExtendedExpr, FromSource, JoinKind, JoinSpec,
    Lit, OrderingSpec, PathStep, QuerySet, UniOpKind,
};
use partiql_winnow_parser::dml::on_conflict::OnConflictParser;
use partiql_winnow_parser::dml::update_strategy::parse_assignment_target;
use partiql_winnow_parser::dml::DmlParser;
use partiql_winnow_parser::dql::select_parser::SelectParser;
use partiql_winnow_parser::eval::expr::to_string::{convert_partiql_pattern_to_chrono, format_datetime};
use partiql_winnow_parser::expr::pratt::PrattParser;
use partiql_winnow_parser::expr::{ExprChain, StrategyContext};
use partiql_winnow_parser::literal::ion::blob::ion_blob_payload;
use partiql_winnow_parser::parse_context::{ParseContext, ParseError};
use partiql_winnow_parser::value::{Date, DateTime, Time};

fn chars(s: &str) -> Vec<char> {
    s.chars().collect()
}

fn parse(input: &str) -> Expr {
    let s = chars(input);
    let chain = ExprChain::new();
    let mut pctx = ParseContext::new();
    let (e, p) = chain.parse_expr(&s, 0, &mut pctx).expect("parse failed");
    assert_eq!(p, s.len());
    e
}

fn is_int(e: &Expr, v: i64) -> bool {
    matches!(e, Expr::Lit(l) if matches!(l.node, Lit::Int64Lit(x) if x == v))
}

fn is_var(e: &Expr, name: &str) -> bool {
    matches!(e, Expr::VarRef(v) if v.node.name.value == name)
}

fn bin(e: &Expr, kind: BinOpKind) -> (&Expr, &Expr) {
    match e {
        Expr::BinOp(b) if b.node.kind == kind => (&*b.node.lhs, &*b.node.rhs),
        other => panic!("expected {:?}, got {:?}", kind, other),
    }
}

fn un(e: &Expr, kind: UniOpKind) -> &Expr {
    match e {
        Expr::UniOp(u) if u.node.kind == kind => &*u.node.expr,
        other => panic!("expected {:?}, got {:?}", kind, other),
    }
}

#[test]
fn offset_with_colon_for_three_x() {
    assert_eq!(convert_partiql_pattern_to_chrono("XXX"), "%:z");
    assert_eq!(convert_partiql_pattern_to_chrono("XX"), "%z");
    assert_eq!(convert_partiql_pattern_to_chrono("XXXXX"), "%:z");
}

#[test]
fn literal_percent_is_escaped() {
    assert_eq!(convert_partiql_pattern_to_chrono("yyyy%"), "%Y%%");
}

#[test]
fn month_initial_for_five_m() {
    let d = DateTime::Date(Date { year: 2024, month: 3, day: 5 });
    assert_eq!(format_datetime(&d, "MMMMM").unwrap(), "M");
}

#[test]
fn offset_of_timestamp_is_printed() {
    let dt = DateTime::TimestampWithTz(
        Date { year: 2020, month: 1, day: 1 },
        Time { hour: 5, minute: 30, second: 0, nanosecond: 0 },
        19800,
    );
    assert_eq!(format_datetime(&dt, "HH:mm XXXXX").unwrap(), "05:30 +05:30");
}

#[test]
fn blob_rejects_non_base64_char() {
    let s = chars("{{ab!c}}");
    assert!(ion_blob_payload(&s, 0).is_err());
}

#[test]
fn dotted_assignment_target_has_one_step_per_part() {
    let s = chars("a.b.c = 1");
    let mut pctx = ParseContext::new();
    let (e, p) = parse_assignment_target(&s, 0, &mut pctx).unwrap();
    assert_eq!(p, 5);
    match e {
        Expr::Path(path) => {
            assert!(is_var(&path.node.root, "a"));
            assert_eq!(path.node.steps.len(), 2);
            for (step, name) in path.node.steps.iter().zip(["b", "c"]) {
                match step {
                    PathStep::PathProject(pe) => assert!(is_var(&pe.index, name)),
                    other => panic!("expected a projection, got {:?}", other),
                }
            }
        }
        other => panic!("expected a path, got {:?}", other),
    }
}

#[test]
fn addition_chain_is_left_nested() {
    let e = parse("1 + 2 + 3");
    let (l, r) = bin(&e, BinOpKind::Add);
    assert!(is_int(r, 3));
    let (ll, lr) = bin(l, BinOpKind::Add);
    assert!(is_int(ll, 1) && is_int(lr, 2));
}

#[test]
fn multiplication_binds_tighter_than_addition() {
    let e = parse("1 + 2 * 3");
    let (l, r) = bin(&e, BinOpKind::Add);
    assert!(is_int(l, 1));
    let (rl, rr) = bin(r, BinOpKind::Mul);
    assert!(is_int(rl, 2) && is_int(rr, 3));
}

#[test]
fn and_binds_tighter_than_or() {
    let e = parse("a OR b AND c");
    let (l, r) = bin(&e, BinOpKind::Or);
    assert!(is_var(l, "a"));
    let (rl, rr) = bin(r, BinOpKind::And);
    assert!(is_var(rl, "b") && is_var(rr, "c"));
}

#[test]
fn not_takes_one_comparison() {
    let e = parse("NOT a = 1 AND b = 2");
    let (l, r) = bin(&e, BinOpKind::And);
    let (nl, nr) = bin(un(l, UniOpKind::Not), BinOpKind::Eq);
    assert!(is_var(nl, "a") && is_int(nr, 1));
    let (rl, rr) = bin(r, BinOpKind::Eq);
    assert!(is_var(rl, "b") && is_int(rr, 2));
}

#[test]
fn minus_before_literal_stays_a_negation() {
    let e = parse("-1");
    assert!(is_int(un(&e, UniOpKind::Neg), 1));
}

#[test]
fn next_level_stops_before_and() {
    let s = chars("a + 1 = 2 AND b");
    let pratt = PrattParser::new();
    let ctx = StrategyContext::new(&pratt);
    let mut pctx = ParseContext::new();
    let (e, p) = ctx.parse_next_level(&s, 0, &mut pctx).unwrap();
    assert_eq!(p, 10);
    let (l, r) = bin(&e, BinOpKind::Eq);
    assert!(is_int(r, 2));
    let (ll, lr) = bin(l, BinOpKind::Add);
    assert!(is_var(ll, "a") && is_int(lr, 1));
}

#[test]
fn path_steps_keep_their_kinds() {
    match parse("a.b[0].c") {
        Expr::Path(path) => {
            assert!(is_var(&path.node.root, "a"));
            assert_eq!(path.node.steps.len(), 3);
            assert!(matches!(&path.node.steps[0], PathStep::PathProject(pe)
                if matches!(&*pe.index, Expr::Lit(l) if matches!(&l.node, Lit::CharStringLit(n) if n == "b"))));
            assert!(matches!(&path.node.steps[1], PathStep::PathIndex(pe) if is_int(&pe.index, 0)));
            assert!(matches!(&path.node.steps[2], PathStep::PathProject(pe)
                if matches!(&*pe.index, Expr::Lit(l) if matches!(&l.node, Lit::CharStringLit(n) if n == "c"))));
        }
        other => panic!("expected a path, got {:?}", other),
    }
    match parse("u.*") {
        Expr::Path(path) => {
            assert_eq!(path.node.steps.len(), 1);
            assert!(matches!(path.node.steps[0], PathStep::PathUnpivot));
        }
        other => panic!("expected a path, got {:?}", other),
    }
}

#[test]
fn count_star_is_an_aggregate_with_a_star() {
    match parse("COUNT(*)") {
        Expr::CallAgg(c) => {
            assert_eq!(c.node.func_name.value, "COUNT");
            assert_eq!(c.node.args.len(), 1);
            assert!(matches!(c.node.args[0].node, CallArg::Star()));
        }
        other => panic!("expected an aggregate call, got {:?}", other),
    }
}

#[test]
fn list_and_bag_hold_their_items() {
    match parse("[1, 2]") {
        Expr::List(l) => {
            assert_eq!(l.node.values.len(), 2);
            assert!(is_int(&l.node.values[0], 1) && is_int(&l.node.values[1], 2));
        }
        other => panic!("expected a list, got {:?}", other),
    }
    match parse("<<1, [2]>>") {
        Expr::Bag(b) => {
            assert_eq!(b.node.values.len(), 2);
            assert!(is_int(&b.node.values[0], 1));
            assert!(matches!(&*b.node.values[1], Expr::List(l) if l.node.values.len() == 1));
        }
        other => panic!("expected a bag, got {:?}", other),
    }
}

#[test]
fn in_list_holds_its_items() {
    match parse("x IN (1, 2)") {
        Expr::In(n) => {
            assert!(is_var(&n.node.lhs, "x"));
            match &*n.node.rhs {
                Expr::List(l) => {
                    assert_eq!(l.node.values.len(), 2);
                    assert!(is_int(&l.node.values[0], 1) && is_int(&l.node.values[1], 2));
                }
                other => panic!("expected a list, got {:?}", other),
            }
        }
        other => panic!("expected IN, got {:?}", other),
    }
}

#[test]
fn not_between_wraps_the_between() {
    match un(&parse("x NOT BETWEEN 1 AND 2"), UniOpKind::Not) {
        Expr::Between(b) => {
            assert!(is_var(&b.node.value, "x"));
            assert!(is_int(&b.node.from, 1) && is_int(&b.node.to, 2));
        }
        other => panic!("expected BETWEEN, got {:?}", other),
    }
}

#[test]
fn struct_fields_are_key_value_pairs() {
    match parse("{'a': 1, b: x}") {
        Expr::Struct(st) => {
            assert_eq!(st.node.fields.len(), 2);
            assert!(matches!(&*st.node.fields[0].first, Expr::Lit(l) if matches!(&l.node, Lit::CharStringLit(k) if k == "a")));
            assert!(is_int(&st.node.fields[0].second, 1));
            assert!(matches!(&*st.node.fields[1].first, Expr::Lit(l) if matches!(&l.node, Lit::CharStringLit(k) if k == "b")));
            assert!(is_var(&st.node.fields[1].second, "x"));
        }
        other => panic!("expected a struct, got {:?}", other),
    }
}

fn on_conflict(input: &str) -> Result<(partiql_winnow_parser::ast::OnConflict, usize), ParseError> {
    let s = chars(input);
    let chain = ExprChain::new();
    let mut pctx = ParseContext::new();
    OnConflictParser::new(chain.pratt()).parse(&s, 0, &mut pctx)
}

#[test]
fn on_conflict_target_and_action() {
    let (oc, p) = on_conflict("ON CONFLICT (a, b) DO NOTHING").unwrap();
    assert_eq!(p, 29);
    match oc.target {
        Some(ConflictTarget::Columns(c)) => assert_eq!(c, vec!["a".to_string(), "b".to_string()]),
        other => panic!("expected columns, got {:?}", other),
    }
    assert!(matches!(oc.conflict_action, ConflictAction::DoNothing));
}

#[test]
fn on_conflict_update_set_columns() {
    let (oc, _) = on_conflict("ON CONFLICT DO UPDATE SET a = 1, b = x").unwrap();
    match oc.conflict_action {
        ConflictAction::DoUpdateSet { set_clauses, where_clause } => {
            assert!(where_clause.is_none());
            assert_eq!(set_clauses.len(), 2);
            assert_eq!(set_clauses[0].column, "a");
            assert!(matches!(&set_clauses[0].expr, ExtendedExpr::PartiQL(x) if is_int(x, 1)));
            assert_eq!(set_clauses[1].column, "b");
            assert!(matches!(&set_clauses[1].expr, ExtendedExpr::PartiQL(x) if is_var(x, "x")));
        }
        other => panic!("expected DO UPDATE SET, got {:?}", other),
    }
}

#[test]
fn on_conflict_unknown_action_fails() {
    assert!(matches!(on_conflict("ON CONFLICT DO FOO"), Err(ParseError::Backtrack)));
}

fn dml(input: &str) -> partiql_winnow_parser::ast::Dml {
    let s = chars(input);
    let chain = ExprChain::new();
    let mut pctx = ParseContext::new();
    let (d, p) = DmlParser::new(&chain).try_parse(&s, 0, &mut pctx).expect("not DML").expect("parse failed");
    assert_eq!(p, s.len());
    d
}

#[test]
fn insert_keeps_target_and_bag() {
    match dml("INSERT INTO t <<1, 2>>").op {
        DmlOp::Insert(ins) => {
            assert!(is_var(&ins.target, "t"));
            assert!(matches!(&*ins.values, Expr::Bag(b) if b.node.values.len() == 2));
        }
        other => panic!("expected an insert, got {:?}", other),
    }
}

#[test]
fn update_keeps_value_and_condition() {
    let d = dml("UPDATE t SET a.b = 2 WHERE c = 3");
    match &d.op {
        DmlOp::Update(u) => {
            assert!(matches!(&*u.assignment.target, Expr::Path(p) if p.node.steps.len() == 1));
            assert!(is_int(&u.assignment.value, 2));
        }
        other => panic!("expected an update, got {:?}", other),
    }
    let w = d.where_clause.expect("a condition");
    let (l, r) = bin(&w, BinOpKind::Eq);
    assert!(is_var(l, "c") && is_int(r, 3));
}

fn select(input: &str) -> Expr {
    let s = chars(input);
    let mut pctx = ParseContext::new();
    SelectParser::new().parse(&s, 0, &mut pctx).expect("parse failed").0
}

#[test]
fn order_by_keeps_directions() {
    match select("SELECT a FROM t ORDER BY a DESC, b ASC, c") {
        Expr::Query(q) => {
            let specs = &q.node.order_by.as_ref().expect("ORDER BY").node.sort_specs;
            assert_eq!(specs.len(), 3);
            assert_eq!(specs[0].node.ordering_spec, Some(OrderingSpec::Desc));
            assert!(is_var(&specs[0].node.expr, "a"));
            assert_eq!(specs[1].node.ordering_spec, Some(OrderingSpec::Asc));
            assert_eq!(specs[2].node.ordering_spec, None);
        }
        other => panic!("expected a query, got {:?}", other),
    }
}

#[test]
fn group_by_keys_and_having() {
    match select("SELECT a FROM t GROUP BY a, b AS c HAVING a > 1") {
        Expr::Query(q) => match &q.node.set.node {
            QuerySet::Select(sel) => {
                let keys = &sel.node.group_by.as_ref().expect("GROUP BY").node.keys;
                assert_eq!(keys.len(), 2);
                assert!(is_var(&keys[0].node.expr, "a") && keys[0].node.as_alias.is_none());
                assert!(is_var(&keys[1].node.expr, "b"));
                assert_eq!(keys[1].node.as_alias.as_ref().unwrap().value, "c");
                let h = &sel.node.having.as_ref().expect("HAVING").node.expr;
                let (l, r) = bin(h, BinOpKind::Gt);
                assert!(is_var(l, "a") && is_int(r, 1));
            }
            other => panic!("expected a select, got {:?}", other),
        },
        other => panic!("expected a query, got {:?}", other),
    }
}

#[test]
fn left_join_keeps_its_condition() {
    match select("SELECT a FROM t LEFT JOIN u ON x = y") {
        Expr::Query(q) => match &q.node.set.node {
            QuerySet::Select(sel) => match &sel.node.from.as_ref().expect("FROM").node.source {
                FromSource::Join(j) => {
                    assert_eq!(j.node.kind, JoinKind::Left);
                    match &j.node.predicate.as_ref().expect("ON").node {
                        JoinSpec::On(c) => {
                            let (l, r) = bin(c, BinOpKind::Eq);
                            assert!(is_var(l, "x") && is_var(r, "y"));
                        }
                    }
                }
                other => panic!("expected a join, got {:?}", other),
            },
            other => panic!("expected a select, got {:?}", other),
        },
        other => panic!("expected a query, got {:?}", other),
    }
}

#[test]
fn special_forms_inside_a_condition() {
    let e = parse("a LIKE 'x%' AND b IS NOT NULL");
    let (l, r) = bin(&e, BinOpKind::And);
    match l {
        Expr::Like(n) => {
            assert!(is_var(&n.node.value, "a"));
            assert!(matches!(&*n.node.pattern, Expr::Lit(p) if matches!(&p.node, Lit::CharStringLit(t) if t == "x%")));
            assert!(n.node.escape.is_none());
        }
        other => panic!("expected LIKE, got {:?}", other),
    }
    let (il, ir) = bin(un(r, UniOpKind::Not), BinOpKind::Is);
    assert!(is_var(il, "b"));
    assert!(matches!(ir, Expr::Lit(n) if matches!(n.node, Lit::Null)));
}

#[test]
fn comparison_level_keeps_between_bounds() {
    let s = chars("x BETWEEN 1 + 1 AND 3 OR y");
    let pratt = PrattParser::new();
    let ctx = StrategyContext::new(&pratt);
    let mut pctx = ParseContext::new();
    let (e, p) = partiql_winnow_parser::expr::comparison_strategy::ComparisonStrategy::new()
        .parse(&ctx, &s, 0, &mut pctx)
        .unwrap();
    assert_eq!(p, 22);
    match e {
        Expr::Between(b) => {
            assert!(is_var(&b.node.value, "x"));
            let (fl, fr) = bin(&b.node.from, BinOpKind::Add);
            assert!(is_int(fl, 1) && is_int(fr, 1));
            assert!(is_int(&b.node.to, 3));
        }
        other => panic!("expected BETWEEN, got {:?}", other),
    }
}

#[test]
fn delete_keeps_alias_and_condition() {
    let d = dml("DELETE FROM t AS u WHERE b = 1");
    assert!(matches!(d.op, DmlOp::Delete(_)));
    match &d.from_clause.as_ref().expect("source").source {
        FromSource::FromLet(f) => {
            assert!(is_var(&f.node.expr, "t"));
            assert_eq!(f.node.as_alias.as_ref().unwrap().value, "u");
            assert!(f.node.at_alias.is_none());
        }
        other => panic!("expected a source, got {:?}", other),
    }
    let w = d.where_clause.expect("a condition");
    let (l, r) = bin(&w, BinOpKind::Eq);
    assert!(is_var(l, "b") && is_int(r, 1));
}

#[test]
fn limit_and_offset_keep_their_values() {
    match select("SELECT a FROM t LIMIT 10 OFFSET 5") {
        Expr::Query(q) => {
            let l = &q.node.limit_offset.as_ref().expect("LIMIT").node;
            assert!(is_int(l.limit.as_ref().unwrap(), 10));
            assert!(is_int(l.offset.as_ref().unwrap(), 5));
        }
        other => panic!("expected a query, got {:?}", other),
    }
}

#[test]
fn test_grammar_parenthesised_operand() {
    let e = parse("(1 + 2) * 3");
    let (l, r) = bin(&e, BinOpKind::Mul);
    let (a, b) = bin(l, BinOpKind::Add);
    assert!(is_int(a, 1) && is_int(b, 2) && is_int(r, 3));
}

#[test]
fn test_grammar_call_operand_keeps_its_side() {
    let e = parse("f(x) - 1");
    let (l, r) = bin(&e, BinOpKind::Sub);
    match l {
        Expr::Call(c) => {
            assert_eq!(c.node.func_name.value, "f");
            assert_eq!(c.node.args.len(), 1);
            assert!(matches!(&c.node.args[0].node, CallArg::Positional(x) if is_var(x, "x")));
        },
        _ => panic!("expected a call on the left"),
    }
    assert!(is_int(r, 1));
}

#[test]
fn test_grammar_call_star_in_comparison() {
    let e = parse("COUNT(*) > 5");
    let (l, r) = bin(&e, BinOpKind::Gt);
    match l {
        Expr::CallAgg(c) => assert!(matches!(c.node.args[0].node, CallArg::Star())),
        _ => panic!("expected an aggregate call"),
    }
    assert!(is_int(r, 5));
}
