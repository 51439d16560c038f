//! Inner join, with or without the word `INNER`.
//!
//! ```text
//! inner_join ::= [INNER] JOIN from_source [ON expr]
//! ```
use crate::ast::{FromSource, JoinKind};
use crate::dql::join::{extends_source, finish_join, join_built, opt_kw, outer_join_start, JoinParser};
use crate::expr::ExprChain;
use crate::parse_context::{ParseContext, ParseError};
use crate::text::{kw_ws, spec_kw_ws};
use vstd::prelude::*;

verus! {

/// Parser of inner join, with or without the word `INNER`.
pub struct InnerJoinParser<'p> {
    chain: &'p ExprChain,
}

impl<'p> InnerJoinParser<'p> {
    pub fn new(chain: &'p ExprChain) -> (r: Self) {
        InnerJoinParser { chain }
    }

    /// Parse the join at `pos`, with `left` as its left source.
    pub fn parse(
        &self,
        s: &[char],
        pos: usize,
        pctx: &mut ParseContext,
        left: FromSource,
    ) -> (r: Result<(FromSource, usize), (Option<FromSource>, ParseError)>)
        requires
            pos <= s@.len(),
        ensures
            old(pctx).next() <= final(pctx).next(),
            extends_source(s@, pos as int, left, JoinKind::Inner, old(pctx).next(), final(pctx).next(), r),
            (spec_kw_ws(s@, pos as int, "JOIN"@) is None && spec_kw_ws(s@, pos as int, "INNER"@) is None) ==> r == Err::<(FromSource, usize), (Option<FromSource>, ParseError)>(
                (Some(left), ParseError::Backtrack)) && final(pctx).next() == old(pctx).next(),
            match spec_kw_ws(s@, opt_kw(s@, pos as int, "INNER"@), "JOIN"@) {
                Some(p) => join_built(s@, p, true, left, JoinKind::Inner, old(pctx).next() as nat, final(pctx).next() as nat, r),
                None => true,
            },
    {
        let p0 = match kw_ws(s, pos, "INNER") {
            Some(q) => q,
            None => pos,
        };
        let p = match kw_ws(s, p0, "JOIN") {
            Some(q) => q,
            None => {
                return Err((Some(left), ParseError::Backtrack));
            },
        };
        finish_join(self.chain, s, p, pctx, left, JoinKind::Inner, true)
    }
}

impl<'p> JoinParser for InnerJoinParser<'p> {
    open spec fn join_kind(&self) -> JoinKind {
        JoinKind::Inner
    }

    fn parse(
        &self,
        s: &[char],
        pos: usize,
        pctx: &mut ParseContext,
        left: FromSource,
    ) -> (r: Result<(FromSource, usize), (Option<FromSource>, ParseError)>) {
        InnerJoinParser::parse(self, s, pos, pctx, left)
    }
}

} // verus!
