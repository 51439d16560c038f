//! `SELECT` statements.
use crate::ast::{
    from_clause_ids, group_by_ids, having_ids, ids_within, lemma_ids_insert, lemma_ids_widen,
    limit_offset_ids, order_by_ids, projection_ids, query_ids, select_body_ids, select_ids,
    where_ids, Expr, GroupByExpr, HavingClause, LimitOffsetClause, OrderByExpr, Query, QuerySet, Select,
    WhereClause,
};
use crate::dql::from_clause::FromClauseParser;
use crate::dql::group_by_clause::GroupByClauseParser;
use crate::dql::having_clause::HavingClauseParser;
use crate::dql::limit_offset_clause::LimitOffsetClauseParser;
use crate::dql::order_by_clause::OrderByClauseParser;
use crate::dql::projection_clause::ProjectionClause;
use crate::dql::where_clause::WhereClauseParser;
use crate::dql::from_clause::atom_source;
use crate::dql::group_by_clause::{keys_are, spec_keys};
use crate::dql::limit_offset_clause::limit_shape;
use crate::dql::order_by_clause::{sorts_are, spec_sorts};
use crate::expr::pratt::{opt_tree_is, spec_bp, tree_is};
use crate::dql::projection_clause::spec_set_quantifier;
use crate::expr::{expr_parsed, lemma_no_kw_at_stop, lone_atom_end, ExprChain};
use crate::parse_context::{ParseContext, ParseError};
use crate::text::{caseless_at, char_at, eq_ignore_case, kw_ws, skip_space, spec_kw_ws, ws0};
use vstd::prelude::*;

verus! {

/// A `WHERE` keyword at `b`.
pub open spec fn where_read(s: Seq<char>, b: int) -> bool {
    spec_kw_ws(s, b, "WHERE"@) is Some
}

/// `GROUP BY` at `b`.
pub open spec fn group_read(s: Seq<char>, b: int) -> bool {
    spec_kw_ws(s, b, "GROUP"@) matches Some(c) && spec_kw_ws(s, c, "BY"@) is Some
}

/// A `HAVING` keyword at `b`.
pub open spec fn having_read(s: Seq<char>, b: int) -> bool {
    spec_kw_ws(s, b, "HAVING"@) is Some
}

/// `ORDER BY` at `b`.
pub open spec fn order_read(s: Seq<char>, b: int) -> bool {
    spec_kw_ws(s, b, "ORDER"@) matches Some(c) && spec_kw_ws(s, c, "BY"@) is Some
}

/// `LIMIT` or `OFFSET` after blanks at `b`.
pub open spec fn limit_read(s: Seq<char>, b: int) -> bool {
    spec_kw_ws(s, skip_space(s, b), "LIMIT"@) is Some || spec_kw_ws(s, skip_space(s, b), "OFFSET"@) is Some
}

/// Each clause of `sel` that is present stands after its keyword in the
/// text.
pub open spec fn select_read(s: Seq<char>, sel: Select) -> bool {
    &&& (sel.where_clause is Some ==> exists|b: int| #[trigger] where_read(s, b))
    &&& (sel.group_by is Some ==> exists|b: int| #[trigger] group_read(s, b))
    &&& (sel.having is Some ==> exists|b: int| #[trigger] having_read(s, b))
}

/// Each clause of `q` that is present stands after its keyword in the
/// text.
pub open spec fn query_read(s: Seq<char>, q: Query) -> bool {
    &&& (q.set.node matches QuerySet::Select(sn) && select_read(s, sn.node))
    &&& (q.order_by is Some ==> exists|b: int| #[trigger] order_read(s, b))
    &&& (q.limit_offset is Some ==> exists|b: int| #[trigger] limit_read(s, b))
}

/// The position after the `*` of a star projection at `pos` (after
/// blanks and any `DISTINCT` or `ALL`).
pub open spec fn star_end(s: Seq<char>, pos: int) -> Option<int> {
    let (setq, q) = spec_set_quantifier(s, skip_space(s, pos));
    if char_at(s, q, '*') {
        Some(q + 1)
    } else {
        None
    }
}

/// The plain `SELECT` bodies at `pos`, with nothing after them: `*`
/// alone (`Some(None)`), or `* FROM` and an atom (`Some(Some(t))`, the
/// atom's position).
pub open spec fn plain_body(s: Seq<char>, pos: int) -> Option<Option<int>> {
    match star_end(s, pos) {
        Some(a) => {
            let f = skip_space(s, a);
            if f == s.len() {
                Some(None)
            } else {
                match spec_kw_ws(s, f, "FROM"@) {
                    Some(t) => if lone_atom_end(s, t) == Some(s.len() as int) {
                        Some(Some(t))
                    } else {
                        None
                    },
                    None => None,
                }
            }
        },
        None => None,
    }
}

/// `sel` is the plain body: a star projection with no clause but the
/// `FROM` atom at `from`, if any, whose node has id `next`.
pub open spec fn plain_select(s: Seq<char>, sel: Select, from: Option<int>, next: nat) -> bool {
    &&& sel.project.node.kind is ProjectStar
    &&& sel.where_clause is None
    &&& sel.group_by is None
    &&& sel.having is None
    &&& match from {
        None => sel.from is None,
        Some(t) => match sel.from {
            Some(c) => atom_source(s, skip_space(s, t), c.node.source, next),
            None => false,
        },
    }
}

/// How many nodes a plain body takes.
pub open spec fn plain_nodes(from: Option<int>) -> nat {
    if from is None {
        1
    } else {
        4
    }
}

/// `e` is the query of a plain body (see [`plain_body`]) with no
/// `ORDER BY`, `LIMIT` or `OFFSET`.
pub open spec fn plain_query(s: Seq<char>, e: Expr, from: Option<int>, next: nat) -> bool {
    match e {
        Expr::Query(q) => q.node.order_by is None && q.node.limit_offset is None && match q.node.set.node {
            QuerySet::Select(sn) => plain_select(s, sn.node, from, next),
        },
        _ => false,
    }
}

/// Parser of `SELECT` statements. Stateless: created once, reused.
pub struct SelectParser {
    chain: ExprChain,
}

impl SelectParser {
    pub fn new() -> (r: Self) {
        SelectParser { chain: ExprChain::new() }
    }

    /// The expression parser that the clauses use.
    pub fn chain(&self) -> &ExprChain {
        &self.chain
    }

    /// The parts of a `SELECT` from its projection at `pos` through
    /// `HAVING`.
    fn parse_select_body(&self, s: &[char], pos: usize, pctx: &mut ParseContext) -> (r: Result<
        (Select, usize),
        ParseError,
    >)
        requires
            pos <= s@.len(),
        ensures
            old(pctx).next() <= final(pctx).next(),
            r matches Ok((sel, p)) ==> pos < p <= s@.len() && ids_within(
                select_body_ids(sel),
                old(pctx).next(),
                final(pctx).next(),
            ),
            match plain_body(s@, pos as int) {
                Some(from) => old(pctx).next() + 3 < u32::MAX ==> (r matches Ok((sel, p)) && plain_select(
                    s@,
                    sel,
                    from,
                    old(pctx).next(),
                ) && final(pctx).next() == old(pctx).next() + plain_nodes(from) && (from is None ==> Some(
                    p as int,
                ) == star_end(s@, pos as int)) && (from is Some ==> p == s@.len())),
                None => true,
            },
            r matches Ok((sel, p)) ==> select_read(s@, sel),
    {
        let ghost lo = pctx.next();
        let ghost plain = plain_body(s@, pos as int) is Some && lo + 3 < u32::MAX;
        proof {
            reveal_strlit("VALUE");
            reveal_strlit("FROM");
            reveal_strlit("WHERE");
            reveal_strlit("GROUP");
            reveal_strlit("HAVING");
            let (setq, q) = spec_set_quantifier(s@, skip_space(s@, pos as int));
            if plain && caseless_at(s@, q, "VALUE"@) {
                assert(eq_ignore_case(s@[q + 0], "VALUE"@[0]));
            }
            lemma_no_kw_at_stop(s@, s@.len() as int, "FROM"@);
            lemma_no_kw_at_stop(s@, s@.len() as int, "WHERE"@);
            lemma_no_kw_at_stop(s@, s@.len() as int, "GROUP"@);
            lemma_no_kw_at_stop(s@, s@.len() as int, "HAVING"@);
        }
        let (projection, p2) = ProjectionClause::new(&self.chain).parse(s, pos, pctx)?;
        let ghost m1 = pctx.next();
        let q = ws0(s, p2);
        let (from, p3) = match kw_ws(s, q, "FROM") {
            Some(q1) => {
                let (f, q2) = FromClauseParser::new(&self.chain).parse(s, q1, pctx)?;
                (Some(f), q2)
            },
            None => (None, p2),
        };
        let ghost m2 = pctx.next();
        proof {
            assert(ids_within(from_clause_ids(from), lo, m2));
        }
        let q = ws0(s, p3);
        let (where_clause, p4) = match kw_ws(s, q, "WHERE") {
            Some(q1) => {
                let (w, q2) = WhereClauseParser::new(&self.chain).parse(s, q1, pctx)?;
                proof {
                    assert(where_read(s@, q as int));
                }
                (Some(w), q2)
            },
            None => (None, p3),
        };
        let ghost bw = q;
        let ghost m3 = pctx.next();
        proof {
            assert(ids_within(where_ids(where_clause), lo, m3));
        }
        let q = ws0(s, p4);
        let (group_by, p5) = match kw_ws(s, q, "GROUP") {
            Some(q1) => match kw_ws(s, q1, "BY") {
                Some(q2) => {
                    let (g, q3) = GroupByClauseParser::new(&self.chain).parse(s, q2, pctx)?;
                    proof {
                        assert(group_read(s@, q as int));
                    }
                    (Some(g), q3)
                },
                None => (None, p4),
            },
            None => (None, p4),
        };
        let ghost m4 = pctx.next();
        let ghost bg = q;
        proof {
            assert(ids_within(group_by_ids(group_by), lo, m4));
        }
        let q = ws0(s, p5);
        let (having, p6) = match kw_ws(s, q, "HAVING") {
            Some(q1) => {
                let (h, q2) = HavingClauseParser::new(&self.chain).parse(s, q1, pctx)?;
                proof {
                    assert(having_read(s@, q as int));
                }
                (Some(h), q2)
            },
            None => (None, p5),
        };
        let ghost m5 = pctx.next();
        let ghost bh = q;
        proof {
            assert(ids_within(having_ids(having), lo, m5));
        }
        let project = pctx.node(projection)?;
        let select = Select { project, from, where_clause, group_by, having };
        proof {
            assert(select.where_clause matches Some(w) ==> where_read(s@, bw as int));
            assert(select.group_by matches Some(g) ==> group_read(s@, bg as int));
            assert(select.having matches Some(h) ==> having_read(s@, bh as int));
            let hi = pctx.next();
            lemma_ids_widen(projection_ids(select.project.node), lo, m1, hi);
            lemma_ids_insert(projection_ids(select.project.node), select.project.id.0 as nat, lo, hi);
            lemma_ids_widen(from_clause_ids(select.from), lo, m2, hi);
            lemma_ids_widen(where_ids(select.where_clause), lo, m3, hi);
            lemma_ids_widen(group_by_ids(select.group_by), lo, m4, hi);
            lemma_ids_widen(having_ids(select.having), lo, m5, hi);
        }
        Ok((select, p6))
    }

    /// Parse a `SELECT` statement at `pos` (after optional blanks) into a
    /// query expression.
    ///
    /// Each clause is taken when its keyword comes next: `FROM`, `WHERE`,
    /// `GROUP BY`, `HAVING`, `ORDER BY`, then `LIMIT`/`OFFSET`. A clause
    /// keyword whose clause does not parse fails the whole statement.
    /// Parsing stops after the last clause; what follows is not read.
    pub fn parse(&self, s: &[char], pos: usize, pctx: &mut ParseContext) -> (r: Result<
        (Expr, usize),
        ParseError,
    >)
        requires
            pos <= s@.len(),
        ensures
            old(pctx).next() <= final(pctx).next(),
            expr_parsed(s@, pos as int, old(pctx).next(), final(pctx).next(), r),
            spec_kw_ws(s@, skip_space(s@, pos as int), "SELECT"@) is None ==> r == Err::<
                (Expr, usize),
                ParseError,
            >(ParseError::Backtrack),
            r matches Ok((e, p)) ==> e matches Expr::Query(q) && q.node.set.node is Select,
            match spec_kw_ws(s@, skip_space(s@, pos as int), "SELECT"@) {
                Some(b) => match plain_body(s@, b) {
                    Some(from) => old(pctx).next() + 6 < u32::MAX ==> (r matches Ok((e, p)) && plain_query(
                        s@,
                        e,
                        from,
                        old(pctx).next(),
                    ) && final(pctx).next() == old(pctx).next() + plain_nodes(from) + 3),
                    None => true,
                },
                None => true,
            },
            r matches Ok((Expr::Query(q), p)) ==> query_read(s@, q.node),
    {
        let ghost lo = pctx.next();
        proof {
            reveal_strlit("ORDER");
            reveal_strlit("LIMIT");
            reveal_strlit("OFFSET");
            lemma_no_kw_at_stop(s@, s@.len() as int, "ORDER"@);
            lemma_no_kw_at_stop(s@, s@.len() as int, "LIMIT"@);
            lemma_no_kw_at_stop(s@, s@.len() as int, "OFFSET"@);
        }
        let p0 = ws0(s, pos);
        let p1 = match kw_ws(s, p0, "SELECT") {
            Some(p1) => p1,
            None => {
                return Err(ParseError::Backtrack);
            },
        };
        let (select, p6) = self.parse_select_body(s, p1, pctx)?;
        let ghost m5 = pctx.next();
        let q = ws0(s, p6);
        let (order_by, p7) = match kw_ws(s, q, "ORDER") {
            Some(q1) => match kw_ws(s, q1, "BY") {
                Some(q2) => {
                    let (o, q3) = OrderByClauseParser::new(&self.chain).parse(s, q2, pctx)?;
                    proof {
                        assert(order_read(s@, q as int));
                    }
                    (Some(o), q3)
                },
                None => (None, p6),
            },
            None => (None, p6),
        };
        let ghost m6 = pctx.next();
        proof {
            assert(ids_within(order_by_ids(order_by), lo, m6));
        }
        let ghost bo = q;
        let (limit_offset, p8) = match LimitOffsetClauseParser::new(&self.chain).parse(s, p7, pctx) {
            Ok((l, q1)) => {
                proof {
                    assert(limit_read(s@, p7 as int));
                }
                (Some(l), q1)
            },
            Err(ParseError::Backtrack) => (None, p7),
            Err(e) => {
                return Err(e);
            },
        };
        let ghost m7 = pctx.next();
        proof {
            assert(ids_within(limit_offset_ids(limit_offset), lo, m7));
        }
        let ghost body = select_body_ids(select);
        let select_node = pctx.node(select)?;
        let ghost sel_ids = select_ids(select_node);
        proof {
            lemma_ids_widen(body, lo, m5, pctx.next());
            lemma_ids_insert(body, select_node.id.0 as nat, lo, pctx.next());
        }
        let set = pctx.node(QuerySet::Select(Box::new(select_node)))?;
        let query = pctx.node(Query { set, order_by, limit_offset })?;
        proof {
            let hi = pctx.next();
            lemma_ids_widen(sel_ids, lo, (hi - 2) as nat, hi);
            lemma_ids_widen(order_by_ids(query.node.order_by), lo, m6, hi);
            lemma_ids_widen(limit_offset_ids(query.node.limit_offset), lo, m7, hi);
            assert(ids_within(query_ids(query), lo, hi));
            assert(query.node.order_by matches Some(o) ==> order_read(s@, bo as int));
            assert(query.node.limit_offset matches Some(l) ==> limit_read(s@, p7 as int));
        }
        Ok((Expr::Query(query), p8))
    }
}

} // verus!
