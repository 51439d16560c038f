//! `ORDER BY` clause.
//!
//! ```text
//! order_by_clause ::= ORDER BY sort_spec (',' sort_spec)*
//! sort_spec       ::= expr [ASC | DESC]
//! ```
use crate::ast::{expr_ids, ids_within, sort_ids, AstNode, OrderByExpr, OrderingSpec, SortSpec};
use crate::expr::{
    atom_is, lemma_no_kw_at_stop, lemma_stop_fixed, lone_atom_end, stop_at, ExprChain,
};
use crate::expr::pratt::{
    entries_size, lemma_entries_size_concat, lemma_entries_size_first, lemma_entries_size_push, spec_bp, tree_is,
    Tree,
};
use crate::parse_context::{ParseContext, ParseError};
use crate::text::{ch, char_at, kw, kw_at, lemma_skip_space_idem, skip_space, ws0};
use vstd::prelude::*;

verus! {

/// The direction written after a sort expression that ends at `q1`
/// (`ASC`, `DESC` or none), and where the sort specification ends.
pub open spec fn spec_direction(s: Seq<char>, q1: int) -> (Option<OrderingSpec>, int) {
    let q2 = skip_space(s, q1);
    if kw_at(s, q2, "ASC"@) {
        (Some(OrderingSpec::Asc), q2 + 3)
    } else if kw_at(s, q2, "DESC"@) {
        (Some(OrderingSpec::Desc), q2 + 4)
    } else {
        (None, q1)
    }
}

/// Comma-separated sort specifications from `p` on, each an expression
/// in the operator grammar and an optional direction: their shapes and
/// directions, and where the last ends.
pub open spec fn spec_sorts(s: Seq<char>, p: int) -> Option<(Seq<(Tree, Option<OrderingSpec>)>, int)>
    decreases s.len() - p,
{
    match spec_bp(s, skip_space(s, p), 0) {
        Some((t, q1)) => {
            let (o, q3) = spec_direction(s, q1);
            let q4 = skip_space(s, q3);
            if p < q4 && char_at(s, q4, ',') {
                match spec_sorts(s, q4 + 1) {
                    Some((ss, f)) => Some((seq![(t, o)] + ss, f)),
                    None => None,
                }
            } else {
                Some((seq![(t, o)], q3))
            }
        },
        None => None,
    }
}

/// The sort specifications from `p` on, where they are well formed.
pub open spec fn sorts_rest(s: Seq<char>, p: int) -> Seq<(Tree, Option<OrderingSpec>)> {
    match spec_sorts(s, p) {
        Some((ss, f)) => ss,
        None => Seq::empty(),
    }
}

/// Where the sort specifications from `p` on end, where well formed.
pub open spec fn sorts_end(s: Seq<char>, p: int) -> int {
    match spec_sorts(s, p) {
        Some((ss, f)) => f,
        None => p,
    }
}

/// The sort specifications `specs` have the shapes and directions `ss`.
pub open spec fn sorts_are(s: Seq<char>, ss: Seq<(Tree, Option<OrderingSpec>)>, specs: Seq<AstNode<SortSpec>>) -> bool {
    &&& specs.len() == ss.len()
    &&& forall|i: int| 0 <= i < ss.len() ==> tree_is(s, (#[trigger] ss[i]).0, *specs[i].node.expr)
        && specs[i].node.ordering_spec == ss[i].1
}

/// Parser of the sort specifications after `ORDER BY`.
pub struct OrderByClauseParser<'p> {
    chain: &'p ExprChain,
}

impl<'p> OrderByClauseParser<'p> {
    pub fn new(chain: &'p ExprChain) -> (r: Self) {
        OrderByClauseParser { chain }
    }

    /// Parse the sort specifications at `pos`, each with its direction
    /// when one is written.
    #[verifier::rlimit(50)]
    pub fn parse(&self, s: &[char], pos: usize, pctx: &mut ParseContext) -> (r: Result<
        (Box<AstNode<OrderByExpr>>, usize),
        ParseError,
    >)
        requires
            pos <= s@.len(),
        ensures
            old(pctx).next() <= final(pctx).next(),
            r matches Ok((o, p)) ==> {
                &&& pos < p <= s@.len()
                &&& ids_within(sort_ids(o.node.sort_specs@).insert(o.id.0 as nat), old(pctx).next(), final(pctx).next())
                &&& o.node.sort_specs.len() >= 1
            },
            match lone_atom_end(s@, pos as int) {
                Some(e) => !char_at(s@, e, ',') && old(pctx).next() + 2 < u32::MAX ==> (r matches Ok((o, p))
                    && p == e && o.node.sort_specs@.len() == 1 && o.node.sort_specs@[0].node.ordering_spec is None
                    && atom_is(s@, skip_space(s@, pos as int), *o.node.sort_specs@[0].node.expr, old(pctx).next())),
                None => true,
            },
            match spec_sorts(s@, pos as int) {
                Some((ss, e)) => old(pctx).next() + entries_size(ss) + 1 < u32::MAX ==> (r matches Ok((o, p)) && p == e
                    && sorts_are(s@, ss, o.node.sort_specs@) && final(pctx).next() == old(pctx).next() + entries_size(ss) + 1),
                None => true,
            },
    {
        let ghost lo = pctx.next();
        let n = s.len();
        let mut specs: Vec<AstNode<SortSpec>> = Vec::new();
        let mut p = pos;
        let ghost e: int = match lone_atom_end(s@, pos as int) {
            Some(e) => e,
            None => 0,
        };
        let ghost lone = lone_atom_end(s@, pos as int) is Some && !char_at(s@, e, ',') && lo + 2 < u32::MAX;
        proof {
            lemma_skip_space_idem(s@, pos as int);
            reveal_strlit("ASC");
            reveal_strlit("DESC");
            if lone {
                lemma_stop_fixed(s@, e);
                lemma_no_kw_at_stop(s@, e, "ASC"@);
                lemma_no_kw_at_stop(s@, e, "DESC"@);
            }
        }
        let ghost good = spec_sorts(s@, pos as int) is Some;
        let ghost fits = good && lo + entries_size(sorts_rest(s@, pos as int)) + 1 < u32::MAX;
        let ghost mut done: Seq<(Tree, Option<OrderingSpec>)> = Seq::empty();
        proof {
            assert(done + sorts_rest(s@, pos as int) =~= sorts_rest(s@, pos as int));
        }
        loop
            invariant_except_break
                lone ==> p == pos && specs@.len() == 0 && pctx.next() == lo,
                fits ==> pctx.next() == lo + entries_size(done) && spec_sorts(s@, p as int) is Some && spec_sorts(s@, pos as int) == Some(
                    (done + sorts_rest(s@, p as int), sorts_end(s@, p as int)),
                ) && sorts_are(s@, done, specs@),
            invariant
                good == (spec_sorts(s@, pos as int) is Some),
                fits == (good && lo + entries_size(sorts_rest(s@, pos as int)) + 1 < u32::MAX),
                lone_atom_end(s@, pos as int) is Some ==> lone_atom_end(s@, pos as int) == Some(e),
                lone == (lone_atom_end(s@, pos as int) == Some(e) && !char_at(s@, e, ',') && lo + 2 < u32::MAX),
                lone ==> stop_at(s@, e) && skip_space(s@, e) == e && !kw_at(s@, e, "ASC"@) && !kw_at(s@, e, "DESC"@)
                    && lone_atom_end(s@, skip_space(s@, pos as int)) == Some(e) && skip_space(
                    s@,
                    skip_space(s@, pos as int),
                ) == skip_space(s@, pos as int),
                n == s@.len(),
                pos <= p <= s@.len(),
                specs@.len() > 0 ==> pos < p,
                lo == old(pctx).next(),
                lo <= pctx.next(),
                ids_within(sort_ids(specs@), lo, pctx.next()),
            ensures
                pos < p <= s@.len(),
                lo <= pctx.next(),
                ids_within(sort_ids(specs@), lo, pctx.next()),
                specs@.len() >= 1,
                lone ==> p == e && specs@.len() == 1 && specs@[0].node.ordering_spec is None && atom_is(
                    s@,
                    skip_space(s@, pos as int),
                    *specs@[0].node.expr,
                    lo,
                ) && pctx.next() == lo + 2,
                fits ==> pctx.next() == lo + entries_size(done) && spec_sorts(s@, pos as int) == Some((done, p as int)) && sorts_are(
                    s@,
                    done,
                    specs@,
                ),
            decreases s@.len() - p,
        {
            let ghost p_old = p;
            let q = ws0(s, p);
            let ghost t = match spec_bp(s@, q as int, 0) {
                Some((t, e)) => t,
                None => Tree::Atom(0),
            };
            proof {
                if fits {
                    let rest = sorts_rest(s@, p as int);
                    lemma_entries_size_first(rest);
                    lemma_entries_size_concat(done, rest);
                }
            }
            let (expr, q1) = self.chain.parse_expr(s, q, pctx)?;
            let q2 = ws0(s, q1);
            proof {
                reveal_strlit("ASC");
                reveal_strlit("DESC");
            }
            let (ordering_spec, q3) = match kw(s, q2, "ASC") {
                Some(e) => (Some(OrderingSpec::Asc), e),
                None => match kw(s, q2, "DESC") {
                    Some(e) => (Some(OrderingSpec::Desc), e),
                    None => (None, q1),
                },
            };
            let ghost e_ids = expr_ids(expr);
            let spec = pctx.node(SortSpec { expr: Box::new(expr), ordering_spec })?;
            let ghost before = specs@;
            specs.push(spec);
            proof {
                assert(specs@.drop_last() =~= before);
            }
            let q4 = ws0(s, q3);
            proof {
                let x = (t, ordering_spec);
                if fits {
                    lemma_entries_size_push(done, x);
                    assert(spec_direction(s@, q1 as int) == (ordering_spec, q3 as int));
                    assert forall|i: int| 0 <= i < done.push(x).len() implies tree_is(s@, (#[trigger] done.push(x)[i]).0, *specs@[i].node.expr)
                        && specs@[i].node.ordering_spec == done.push(x)[i].1 by {
                        if i < done.len() {
                            assert(specs@[i] == before[i]);
                        }
                    }
                    if p_old < q4 && char_at(s@, q4 as int, ',') {
                        assert(done + (seq![x] + sorts_rest(s@, q4 + 1)) =~= done.push(x) + sorts_rest(s@, q4 + 1));
                    } else {
                        assert(done + seq![x] =~= done.push(x));
                    }
                }
                done = done.push(x);
            }
            match ch(s, q4, ',') {
                Some(q5) => {
                    p = q5;
                },
                None => {
                    p = q3;
                    break ;
                },
            }
        }
        let node = pctx.node(OrderByExpr { sort_specs: specs })?;
        Ok((Box::new(node), p))
    }
}

} // verus!
