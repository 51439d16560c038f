//! Full outer join.
//!
//! ```text
//! full_join ::= FULL [OUTER] JOIN from_source [ON expr]
//! ```
use crate::ast::{FromSource, JoinKind};
use crate::dql::join::{extends_source, finish_join, join_built, opt_kw, outer_join_start, JoinParser};
use crate::expr::ExprChain;
use crate::parse_context::{ParseContext, ParseError};
use crate::text::{kw_ws, spec_kw_ws};
use vstd::prelude::*;

verus! {

/// Parser of full outer join.
pub struct FullJoinParser<'p> {
    chain: &'p ExprChain,
}

impl<'p> FullJoinParser<'p> {
    pub fn new(chain: &'p ExprChain) -> (r: Self) {
        FullJoinParser { chain }
    }

    /// Parse the join at `pos`, with `left` as its left source.
    pub fn parse(
        &self,
        s: &[char],
        pos: usize,
        pctx: &mut ParseContext,
        left: FromSource,
    ) -> (r: Result<(FromSource, usize), (Option<FromSource>, ParseError)>)
        requires
            pos <= s@.len(),
        ensures
            old(pctx).next() <= final(pctx).next(),
            extends_source(s@, pos as int, left, JoinKind::Full, old(pctx).next(), final(pctx).next(), r),
            spec_kw_ws(s@, pos as int, "FULL"@) is None ==> r == Err::<(FromSource, usize), (Option<FromSource>, ParseError)>(
                (Some(left), ParseError::Backtrack)) && final(pctx).next() == old(pctx).next(),
            match outer_join_start(s@, pos as int, "FULL"@) {
                Some(p) => join_built(s@, p, true, left, JoinKind::Full, old(pctx).next() as nat, final(pctx).next() as nat, r),
                None => true,
            },
    {
        let p0 = match kw_ws(s, pos, "FULL") {
            Some(q) => q,
            None => {
                return Err((Some(left), ParseError::Backtrack));
            },
        };
        let p1 = match kw_ws(s, p0, "OUTER") {
            Some(q) => q,
            None => p0,
        };
        let p = match kw_ws(s, p1, "JOIN") {
            Some(q) => q,
            None => {
                return Err((Some(left), ParseError::Backtrack));
            },
        };
        finish_join(self.chain, s, p, pctx, left, JoinKind::Full, true)
    }
}

impl<'p> JoinParser for FullJoinParser<'p> {
    open spec fn join_kind(&self) -> JoinKind {
        JoinKind::Full
    }

    fn parse(
        &self,
        s: &[char],
        pos: usize,
        pctx: &mut ParseContext,
        left: FromSource,
    ) -> (r: Result<(FromSource, usize), (Option<FromSource>, ParseError)>) {
        FullJoinParser::parse(self, s, pos, pctx, left)
    }
}

} // verus!
