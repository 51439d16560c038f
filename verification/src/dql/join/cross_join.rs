//! Explicit cross join.
//!
//! ```text
//! cross_join ::= CROSS JOIN from_source
//! ```
use crate::ast::{FromSource, JoinKind};
use crate::dql::join::{extends_source, finish_join, join_built, opt_kw, outer_join_start, JoinParser};
use crate::expr::ExprChain;
use crate::parse_context::{ParseContext, ParseError};
use crate::text::{kw_ws, spec_kw_ws};
use vstd::prelude::*;

verus! {

/// Parser of explicit cross join.
pub struct CrossJoinParser<'p> {
    chain: &'p ExprChain,
}

impl<'p> CrossJoinParser<'p> {
    pub fn new(chain: &'p ExprChain) -> (r: Self) {
        CrossJoinParser { chain }
    }

    /// Parse the join at `pos`, with `left` as its left source.
    pub fn parse(
        &self,
        s: &[char],
        pos: usize,
        pctx: &mut ParseContext,
        left: FromSource,
    ) -> (r: Result<(FromSource, usize), (Option<FromSource>, ParseError)>)
        requires
            pos <= s@.len(),
        ensures
            old(pctx).next() <= final(pctx).next(),
            extends_source(s@, pos as int, left, JoinKind::Cross, old(pctx).next(), final(pctx).next(), r),
            spec_kw_ws(s@, pos as int, "CROSS"@) is None ==> r == Err::<(FromSource, usize), (Option<FromSource>, ParseError)>(
                (Some(left), ParseError::Backtrack)) && final(pctx).next() == old(pctx).next(),
            match (match spec_kw_ws(s@, pos as int, "CROSS"@) {
                Some(p0) => spec_kw_ws(s@, p0, "JOIN"@),
                None => None,
            }) {
                Some(p) => join_built(s@, p, false, left, JoinKind::Cross, old(pctx).next() as nat, final(pctx).next() as nat, r),
                None => true,
            },
    {
        let p0 = match kw_ws(s, pos, "CROSS") {
            Some(q) => q,
            None => {
                return Err((Some(left), ParseError::Backtrack));
            },
        };
        let p = match kw_ws(s, p0, "JOIN") {
            Some(q) => q,
            None => {
                return Err((Some(left), ParseError::Backtrack));
            },
        };
        finish_join(self.chain, s, p, pctx, left, JoinKind::Cross, false)
    }
}

impl<'p> JoinParser for CrossJoinParser<'p> {
    open spec fn join_kind(&self) -> JoinKind {
        JoinKind::Cross
    }

    fn parse(
        &self,
        s: &[char],
        pos: usize,
        pctx: &mut ParseContext,
        left: FromSource,
    ) -> (r: Result<(FromSource, usize), (Option<FromSource>, ParseError)>) {
        CrossJoinParser::parse(self, s, pos, pctx, left)
    }
}

} // verus!
