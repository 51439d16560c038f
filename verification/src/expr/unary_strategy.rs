//! Prefix `-` and `+`.
//!
//! ```text
//! unary_expr ::= ('-' | '+') unary_operand | unary_operand
//! ```
use crate::ast::{Expr, UniOp, UniOpKind};
use crate::expr::{expr_parsed, lemma_lone_start, lone_atom_parsed, StrategyContext};
use crate::parse_context::{ParseContext, ParseError};
use crate::text::{ch, char_at, ws0};
use crate::expr::ExprStrategy;
use vstd::prelude::*;

verus! {

/// Strategy for prefix `-` and `+`.
pub struct UnaryStrategy;

impl UnaryStrategy {
    /// A sign and its operand, or just the operand.
    pub fn parse(&self, ctx: &StrategyContext, s: &[char], pos: usize, pctx: &mut ParseContext) -> (r:
        Result<(Expr, usize), ParseError>)
        requires
            pos <= s@.len(),
        ensures
            old(pctx).next() <= final(pctx).next(),
            expr_parsed(s@, pos as int, old(pctx).next(), final(pctx).next(), r),
            char_at(s@, pos as int, '-') ==> (r matches Ok((e, p)) ==> e matches Expr::UniOp(u) && u.node.kind
                == UniOpKind::Neg),
            char_at(s@, pos as int, '+') ==> (r matches Ok((e, p)) ==> e matches Expr::UniOp(u) && u.node.kind
                == UniOpKind::Pos),
            lone_atom_parsed(s@, pos as int, old(pctx).next(), final(pctx).next(), r),
    {
        proof {
            lemma_lone_start(s@, pos as int);
        }
        let (kind, q) = if let Some(q) = ch(s, pos, '-') {
            (UniOpKind::Neg, q)
        } else if let Some(q) = ch(s, pos, '+') {
            (UniOpKind::Pos, q)
        } else {
            return ctx.parse_next_level(s, pos, pctx);
        };
        let q1 = ws0(s, q);
        let (operand, p) = ctx.parse_next_level(s, q1, pctx)?;
        let node = pctx.node(UniOp { kind, expr: Box::new(operand) })?;
        Ok((Expr::UniOp(node), p))
    }
}

impl ExprStrategy for UnaryStrategy {
    fn parse(&self, ctx: &StrategyContext, s: &[char], pos: usize, pctx: &mut ParseContext) -> (r: Result<
        (Expr, usize),
        ParseError,
    >) {
        UnaryStrategy::parse(self, ctx, s, pos, pctx)
    }
}

} // verus!
