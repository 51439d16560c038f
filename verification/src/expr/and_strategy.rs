//! `AND`.
//!
//! ```text
//! and_expr ::= not_expr (AND not_expr)*
//! ```
use crate::ast::{expr_ids, ids_within, BinOp, BinOpKind, Expr};
use crate::expr::{
    expr_parsed, lemma_no_kw_at_stop, lone_atom_end, lone_atom_parsed, stop_at, StrategyContext,
};
use crate::parse_context::{ParseContext, ParseError};
use crate::text::{kw_ws, lemma_skip_space_idem, skip_space, ws0};
use crate::expr::ExprStrategy;
use vstd::prelude::*;

verus! {

/// Strategy for `AND`.
pub struct AndStrategy;

impl AndStrategy {
    /// Parse operands at the next level joined by `AND`, associating
    /// to the left.
    pub fn parse(&self, ctx: &StrategyContext, s: &[char], pos: usize, pctx: &mut ParseContext) -> (r:
        Result<(Expr, usize), ParseError>)
        requires
            pos <= s@.len(),
        ensures
            old(pctx).next() <= final(pctx).next(),
            expr_parsed(s@, pos as int, old(pctx).next(), final(pctx).next(), r),
            lone_atom_parsed(s@, pos as int, old(pctx).next(), final(pctx).next(), r),
    {
        let ghost lo = pctx.next();
        let n = s.len();
        let (mut left, mut p) = ctx.parse_next_level(s, pos, pctx)?;
        let ghost lone = lone_atom_end(s@, pos as int) is Some && lo < u32::MAX;
        let ghost left0 = left;
        let ghost p0 = p;
        proof {
            if lone {
                lemma_skip_space_idem(s@, p as int);
            }
        }
        loop
            invariant
                lone == (lone_atom_end(s@, pos as int) is Some && lo < u32::MAX),
                lone ==> left == left0 && p == p0 && pctx.next() == lo + 1 && p == skip_space(s@, p as int) && stop_at(s@, p as int),
                n == s@.len(),
                pos < p <= s@.len(),
                lo == old(pctx).next(),
                lo <= pctx.next(),
                ids_within(expr_ids(left), lo, pctx.next()),
            ensures
                pos < p <= s@.len(),
                lo <= pctx.next(),
                ids_within(expr_ids(left), lo, pctx.next()),
                lone ==> left == left0 && p == p0 && pctx.next() == lo + 1,
            decreases s@.len() - p,
        {
            let q = ws0(s, p);
            proof {
                if lone {
                    reveal_strlit("AND");
                    lemma_no_kw_at_stop(s@, q as int, "AND"@);
                }
            }
            let q2 = match kw_ws(s, q, "AND") {
                Some(q2) => q2,
                None => {
                    break ;
                },
            };
            let kind = BinOpKind::And;
            let (right, q3) = ctx.parse_next_level(s, q2, pctx)?;
            let node = pctx.node(BinOp { kind, lhs: Box::new(left), rhs: Box::new(right) })?;
            left = Expr::BinOp(node);
            p = q3;
        }
        Ok((left, p))
    }
}

impl ExprStrategy for AndStrategy {
    fn parse(&self, ctx: &StrategyContext, s: &[char], pos: usize, pctx: &mut ParseContext) -> (r: Result<
        (Expr, usize),
        ParseError,
    >) {
        AndStrategy::parse(self, ctx, s, pos, pctx)
    }
}

} // verus!
