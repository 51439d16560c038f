//! Comma join: `FROM t1, t2` is a cross join.
//!
//! ```text
//! comma_join ::= ',' from_source
//! ```
use crate::ast::{FromSource, JoinKind};
use crate::dql::join::{extends_source, finish_join, join_built, opt_kw, outer_join_start, JoinParser};
use crate::expr::ExprChain;
use crate::parse_context::{ParseContext, ParseError};
use crate::text::{ch, char_at, skip_space, ws0};
use vstd::prelude::*;

verus! {

/// Parser of comma join: `FROM t1, t2` is a cross join.
pub struct CommaJoinParser<'p> {
    chain: &'p ExprChain,
}

impl<'p> CommaJoinParser<'p> {
    pub fn new(chain: &'p ExprChain) -> (r: Self) {
        CommaJoinParser { chain }
    }

    /// Parse the join at `pos`, with `left` as its left source.
    pub fn parse(
        &self,
        s: &[char],
        pos: usize,
        pctx: &mut ParseContext,
        left: FromSource,
    ) -> (r: Result<(FromSource, usize), (Option<FromSource>, ParseError)>)
        requires
            pos <= s@.len(),
        ensures
            old(pctx).next() <= final(pctx).next(),
            extends_source(s@, pos as int, left, JoinKind::Cross, old(pctx).next(), final(pctx).next(), r),
            !char_at(s@, pos as int, ',') ==> r == Err::<(FromSource, usize), (Option<FromSource>, ParseError)>(
                (Some(left), ParseError::Backtrack)) && final(pctx).next() == old(pctx).next(),
            match (if char_at(s@, pos as int, ',') {
                Some(skip_space(s@, pos + 1))
            } else {
                None
            }) {
                Some(p) => join_built(s@, p, false, left, JoinKind::Cross, old(pctx).next() as nat, final(pctx).next() as nat, r),
                None => true,
            },
    {
        let p = match ch(s, pos, ',') {
            Some(q) => ws0(s, q),
            None => {
                return Err((Some(left), ParseError::Backtrack));
            },
        };
        finish_join(self.chain, s, p, pctx, left, JoinKind::Cross, false)
    }
}

impl<'p> JoinParser for CommaJoinParser<'p> {
    open spec fn join_kind(&self) -> JoinKind {
        JoinKind::Cross
    }

    fn parse(
        &self,
        s: &[char],
        pos: usize,
        pctx: &mut ParseContext,
        left: FromSource,
    ) -> (r: Result<(FromSource, usize), (Option<FromSource>, ParseError)>) {
        CommaJoinParser::parse(self, s, pos, pctx, left)
    }
}

} // verus!
