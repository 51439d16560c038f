//! `null`, `null.int`, ... and `MISSING`.
use crate::ast::{Expr, Lit};
use crate::expr::expr_parsed;
use crate::literal::ion_null::{ion_null, missing, spec_ion_null};
use crate::literal::lit_outcome;
use crate::parse_context::{ParseContext, ParseError};
use crate::text::kw_at;
use crate::expr::StrategyContext;
use crate::literal::LiteralStrategy;
use vstd::prelude::*;

verus! {

/// End of the `MISSING` or null literal at `pos`.
pub open spec fn null_missing_end(s: Seq<char>, pos: int) -> Option<int> {
    if kw_at(s, pos, "MISSING"@) {
        Some(pos + "MISSING"@.len())
    } else {
        match spec_ion_null(s, pos) {
            Some((v, q)) => Some(q),
            None => None,
        }
    }
}

/// Strategy for `MISSING` and Ion nulls.
pub struct NullMissingStrategy;

impl NullMissingStrategy {
    /// Parse `MISSING` into `Lit::Missing`, or any Ion null (typed or not)
    /// into `Lit::Null`.
    pub fn parse(&self, s: &[char], pos: usize, pctx: &mut ParseContext) -> (r: Result<
        (Expr, usize),
        ParseError,
    >)
        requires
            pos <= s@.len(),
        ensures
            old(pctx).next() <= final(pctx).next(),
            expr_parsed(s@, pos as int, old(pctx).next(), final(pctx).next(), r),
            r is Err ==> final(pctx).next() == old(pctx).next(),
            lit_outcome(
                r,
                old(pctx).next(),
                null_missing_end(s@, pos as int),
                |l: Lit|
                    if kw_at(s@, pos as int, "MISSING"@) {
                        l is Missing
                    } else {
                        l is Null
                    },
            ),
    {
        proof {
            reveal_strlit("MISSING");
        }
        if let Ok((_, p)) = missing(s, pos) {
            let node = pctx.node(Lit::Missing)?;
            return Ok((Expr::Lit(node), p));
        }
        let (_, p) = ion_null(s, pos)?;
        let node = pctx.node(Lit::Null)?;
        Ok((Expr::Lit(node), p))
    }
}

impl LiteralStrategy for NullMissingStrategy {
    fn parse(&self, ctx: &StrategyContext, s: &[char], pos: usize, pctx: &mut ParseContext) -> (r: Result<
        (Expr, usize),
        ParseError,
    >) {
        NullMissingStrategy::parse(self, s, pos, pctx)
    }
}

} // verus!
