//! Addition, subtraction and concatenation.
//!
//! ```text
//! add_expr ::= mul_expr (('+' | '-' | '||') mul_expr)*
//! ```
use crate::ast::{expr_ids, ids_within, BinOp, BinOpKind, Expr};
use crate::expr::{
    expr_parsed, lone_atom_end, lone_atom_parsed, stop_at, StrategyContext,
};
use crate::parse_context::{ParseContext, ParseError};
use crate::text::{ch, char_at, lemma_skip_space_idem, lit, lit_at, skip_space, ws0};
use crate::expr::ExprStrategy;
use crate::expr::pratt::{ended_at, lemma_bp_end, spec_bp, tree_parsed, tree_size};
use vstd::prelude::*;

verus! {

/// Strategy for `+`, `-` and `||`.
pub struct AddSubStrategy;

impl AddSubStrategy {
    /// Parse operands at the next level joined by `+`, `-` and `||`, associating
    /// to the left.
    pub fn parse(&self, ctx: &StrategyContext, s: &[char], pos: usize, pctx: &mut ParseContext) -> (r:
        Result<(Expr, usize), ParseError>)
        requires
            pos <= s@.len(),
        ensures
            old(pctx).next() <= final(pctx).next(),
            expr_parsed(s@, pos as int, old(pctx).next(), final(pctx).next(), r),
            lone_atom_parsed(s@, pos as int, old(pctx).next(), final(pctx).next(), r),
            tree_parsed(s@, pos as int, 5, old(pctx).next() as nat, final(pctx).next() as nat, r),
    {
        let ghost lo = pctx.next();
        let n = s.len();
        let (mut left, mut p) = ctx.parse_next_level(s, pos, pctx)?;
        let ghost lone = lone_atom_end(s@, pos as int) is Some && lo < u32::MAX;
        let ghost left0 = left;
        let ghost p0 = p;
        let ghost mid = pctx.next();
        let ghost tb = spec_bp(s@, pos as int, 5) matches Some((t, e)) && lo + tree_size(t) < u32::MAX;
        proof {
            lemma_bp_end(s@, pos as int, 5);
        }
        proof {
            if lone {
                lemma_skip_space_idem(s@, p as int);
            }
        }
        loop
            invariant
                tb ==> left == left0 && p == p0 && pctx.next() == mid && ended_at(s@, p0 as int, 5),
                tb == (spec_bp(s@, pos as int, 5) matches Some((t, e)) && lo + tree_size(t) < u32::MAX),
                mid <= pctx.next(),
                lone == (lone_atom_end(s@, pos as int) is Some && lo < u32::MAX),
                lone ==> left == left0 && p == p0 && pctx.next() == lo + 1 && p == skip_space(s@, p as int) && stop_at(s@, p as int),
                n == s@.len(),
                pos < p <= s@.len(),
                lo == old(pctx).next(),
                lo <= pctx.next(),
                ids_within(expr_ids(left), lo, pctx.next()),
            ensures
                pos < p <= s@.len(),
                lo <= pctx.next(),
                ids_within(expr_ids(left), lo, pctx.next()),
                lone ==> left == left0 && p == p0 && pctx.next() == lo + 1,
                tb ==> left == left0 && p == p0 && pctx.next() == mid,
                mid <= pctx.next(),
            decreases s@.len() - p,
        {
            let q = ws0(s, p);
            proof {
                if tb {
                    assert(q == p0);
                    assert(!char_at(s@, q as int, '+'));
                    assert(!char_at(s@, q as int, '-'));
                    reveal_strlit("||");
                    if lit_at(s@, q as int, "||"@) {
                        assert(s@.subrange(q as int, q + 2)[0] == s@[q as int]);
                        assert(s@.subrange(q as int, q + 2)[1] == s@[q + 1]);
                    }
                }
                if lone {
                    reveal_strlit("||");
                    if lit_at(s@, q as int, "||"@) {
                        assert(s@.subrange(q as int, q + 2)[0] == s@[q as int]);
                    }
                }
            }
            let (kind, q1) = if let Some(q1) = lit(s, q, "||") {
                (BinOpKind::Concat, q1)
            } else if let Some(q1) = ch(s, q, '+') {
                (BinOpKind::Add, q1)
            } else if let Some(q1) = ch(s, q, '-') {
                (BinOpKind::Sub, q1)
            } else {
                break ;
            };
            let q2 = ws0(s, q1);
            let (right, q3) = ctx.parse_next_level(s, q2, pctx)?;
            let node = pctx.node(BinOp { kind, lhs: Box::new(left), rhs: Box::new(right) })?;
            left = Expr::BinOp(node);
            p = q3;
        }
        Ok((left, p))
    }
}

impl ExprStrategy for AddSubStrategy {
    fn parse(&self, ctx: &StrategyContext, s: &[char], pos: usize, pctx: &mut ParseContext) -> (r: Result<
        (Expr, usize),
        ParseError,
    >) {
        AddSubStrategy::parse(self, ctx, s, pos, pctx)
    }
}

} // verus!
