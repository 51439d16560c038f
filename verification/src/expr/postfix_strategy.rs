//! Postfix path steps: `.field` and `[index]`.
//!
//! ```text
//! postfix_expr ::= base ('.' identifier | '[' expr ']')*
//! ```
//! A field step holds its name as a string literal.
use crate::ast::{expr_ids, ids_within, step_ids, Expr, Lit, Path, PathExpr, PathStep};
use crate::expr::{expr_parsed, lone_atom_end, lone_atom_parsed, stop_at, StrategyContext};
use crate::identifier::identifier;
use crate::parse_context::{ParseContext, ParseError};
use crate::text::{ch, ws0};
use crate::expr::ExprStrategy;
use vstd::prelude::*;

verus! {

/// Strategy for path steps.
pub struct PostfixStrategy;

impl PostfixStrategy {
    /// The base at the next level, then its steps; a path when there is
    /// at least one step, the base alone otherwise.
    pub fn parse(&self, ctx: &StrategyContext, s: &[char], pos: usize, pctx: &mut ParseContext) -> (r:
        Result<(Expr, usize), ParseError>)
        requires
            pos <= s@.len(),
        ensures
            old(pctx).next() <= final(pctx).next(),
            expr_parsed(s@, pos as int, old(pctx).next(), final(pctx).next(), r),
            lone_atom_parsed(s@, pos as int, old(pctx).next(), final(pctx).next(), r),
    {
        let ghost lo = pctx.next();
        let n = s.len();
        let (base, p0) = ctx.parse_next_level(s, pos, pctx)?;
        let mut steps: Vec<PathStep> = Vec::new();
        let mut p = p0;
        let ghost lone = lone_atom_end(s@, pos as int) is Some && lo < u32::MAX;
        loop
            invariant
                lone == (lone_atom_end(s@, pos as int) is Some && lo < u32::MAX),
                lone ==> p == p0 && steps@.len() == 0 && pctx.next() == lo + 1 && stop_at(s@, p as int),
                n == s@.len(),
                pos < p0 <= p <= s@.len(),
                lo == old(pctx).next(),
                lo <= pctx.next(),
                ids_within(expr_ids(base), lo, pctx.next()),
                ids_within(step_ids(steps@), lo, pctx.next()),
            ensures
                pos < p <= s@.len(),
                lo <= pctx.next(),
                ids_within(expr_ids(base), lo, pctx.next()),
                ids_within(step_ids(steps@), lo, pctx.next()),
                lone ==> p == p0 && steps@.len() == 0 && pctx.next() == lo + 1,
            decreases s@.len() - p,
        {
            if let Some(q) = ch(s, p, '.') {
                let (field, q2) = identifier(s, q)?;
                let lit = pctx.node(Lit::CharStringLit(field))?;
                let index = Expr::Lit(lit);
                let ghost before = steps@;
                let ghost new_ids = expr_ids(index);
                steps.push(PathStep::PathProject(PathExpr { index: Box::new(index) }));
                proof {
                    assert(steps@.drop_last() =~= before);
                    assert(step_ids(steps@) =~= step_ids(before).union(new_ids));
                }
                p = q2;
            } else if let Some(q) = ch(s, p, '[') {
                let q1 = ws0(s, q);
                let (index, q2) = ctx.parse_expr(s, q1, pctx)?;
                let q3 = ws0(s, q2);
                let q4 = match ch(s, q3, ']') {
                    Some(q4) => q4,
                    None => {
                        return Err(ParseError::Backtrack);
                    },
                };
                let ghost before = steps@;
                let ghost new_ids = expr_ids(index);
                steps.push(PathStep::PathIndex(PathExpr { index: Box::new(index) }));
                proof {
                    assert(steps@.drop_last() =~= before);
                    assert(step_ids(steps@) =~= step_ids(before).union(new_ids));
                }
                p = q4;
            } else {
                break ;
            }
        }
        if steps.len() == 0 {
            return Ok((base, p));
        }
        let node = pctx.node(Path { root: Box::new(base), steps })?;
        Ok((Expr::Path(node), p))
    }
}

impl ExprStrategy for PostfixStrategy {
    fn parse(&self, ctx: &StrategyContext, s: &[char], pos: usize, pctx: &mut ParseContext) -> (r: Result<
        (Expr, usize),
        ParseError,
    >) {
        PostfixStrategy::parse(self, ctx, s, pos, pctx)
    }
}

} // verus!
