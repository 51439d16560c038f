//! Prefix `NOT`.
//!
//! ```text
//! not_expr ::= NOT not_operand | not_operand
//! ```
use crate::ast::{Expr, UniOp, UniOpKind};
use crate::expr::{expr_parsed, lemma_lone_start, lone_atom_end, lone_atom_parsed, StrategyContext};
use crate::parse_context::{ParseContext, ParseError};
use crate::text::{caseless_at, eq_ignore_case, kw_ws, spec_kw_ws};
use crate::expr::ExprStrategy;
use crate::expr::pratt::{spec_bp, tree_is, tree_parsed, tree_size, Tree};
use vstd::prelude::*;

verus! {

/// Strategy for prefix `NOT`.
pub struct NotStrategy;

impl NotStrategy {
    /// `NOT` and its operand, or just the operand.
    pub fn parse(&self, ctx: &StrategyContext, s: &[char], pos: usize, pctx: &mut ParseContext) -> (r:
        Result<(Expr, usize), ParseError>)
        requires
            pos <= s@.len(),
        ensures
            old(pctx).next() <= final(pctx).next(),
            expr_parsed(s@, pos as int, old(pctx).next(), final(pctx).next(), r),
            spec_kw_ws(s@, pos as int, "NOT"@) is Some ==> (r matches Ok((e, p)) ==> e matches Expr::UniOp(u)
                && u.node.kind == UniOpKind::Not),
            lone_atom_parsed(s@, pos as int, old(pctx).next(), final(pctx).next(), r),
            match spec_kw_ws(s@, pos as int, "NOT"@) {
                Some(q) => match spec_bp(s@, q, 5) {
                    Some((t, e)) => old(pctx).next() + tree_size(t) + 1 < u32::MAX ==> (r matches Ok((x, p)) && p == e
                        && tree_is(s@, Tree::Un(UniOpKind::Not, Box::new(t)), x) && final(pctx).next()
                        == old(pctx).next() + tree_size(t) + 1),
                    None => true,
                },
                None => tree_parsed(s@, pos as int, 5, old(pctx).next() as nat, final(pctx).next() as nat, r),
            },
    {
        proof {
            reveal_strlit("NOT");
            lemma_lone_start(s@, pos as int);
            if lone_atom_end(s@, pos as int) is Some && caseless_at(s@, pos as int, "NOT"@) {
                assert(eq_ignore_case(s@[pos + 0], "NOT"@[0]));
            }
        }
        if let Some(q) = kw_ws(s, pos, "NOT") {
            let (operand, p) = ctx.parse_next_level(s, q, pctx)?;
            let node = pctx.node(UniOp { kind: UniOpKind::Not, expr: Box::new(operand) })?;
            Ok((Expr::UniOp(node), p))
        } else {
            ctx.parse_next_level(s, pos, pctx)
        }
    }
}

impl ExprStrategy for NotStrategy {
    fn parse(&self, ctx: &StrategyContext, s: &[char], pos: usize, pctx: &mut ParseContext) -> (r: Result<
        (Expr, usize),
        ParseError,
    >) {
        NotStrategy::parse(self, ctx, s, pos, pctx)
    }
}

} // verus!
