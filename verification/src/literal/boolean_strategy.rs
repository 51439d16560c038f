//! `true` and `false`, in any ASCII case.
use crate::ast::{Expr, Lit};
use crate::expr::expr_parsed;
use crate::literal::lit_outcome;
use crate::parse_context::{ParseContext, ParseError};
use crate::text::{kw, kw_at};
use crate::expr::StrategyContext;
use crate::literal::LiteralStrategy;
use vstd::prelude::*;

verus! {

/// End of the boolean literal at `pos`.
pub open spec fn boolean_end(s: Seq<char>, pos: int) -> Option<int> {
    if kw_at(s, pos, "true"@) {
        Some(pos + "true"@.len())
    } else if kw_at(s, pos, "false"@) {
        Some(pos + "false"@.len())
    } else {
        None
    }
}

/// Strategy for boolean literals.
pub struct BooleanLiteralStrategy;

impl BooleanLiteralStrategy {
    /// Parse `true` or `false` as a whole word: `trueish` is no boolean.
    pub fn parse(&self, s: &[char], pos: usize, pctx: &mut ParseContext) -> (r: Result<
        (Expr, usize),
        ParseError,
    >)
        requires
            pos <= s@.len(),
        ensures
            old(pctx).next() <= final(pctx).next(),
            expr_parsed(s@, pos as int, old(pctx).next(), final(pctx).next(), r),
            r is Err ==> final(pctx).next() == old(pctx).next(),
            lit_outcome(
                r,
                old(pctx).next(),
                boolean_end(s@, pos as int),
                |l: Lit| l == Lit::BoolLit(kw_at(s@, pos as int, "true"@)),
            ),
    {
        proof {
            reveal_strlit("true");
            reveal_strlit("false");
        }
        let (b, p) = match kw(s, pos, "true") {
            Some(p) => (true, p),
            None => match kw(s, pos, "false") {
                Some(p) => (false, p),
                None => {
                    return Err(ParseError::Backtrack);
                },
            },
        };
        let node = pctx.node(Lit::BoolLit(b))?;
        Ok((Expr::Lit(node), p))
    }
}

impl LiteralStrategy for BooleanLiteralStrategy {
    fn parse(&self, ctx: &StrategyContext, s: &[char], pos: usize, pctx: &mut ParseContext) -> (r: Result<
        (Expr, usize),
        ParseError,
    >) {
        BooleanLiteralStrategy::parse(self, s, pos, pctx)
    }
}

} // verus!
