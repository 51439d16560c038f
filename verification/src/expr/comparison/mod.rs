//! Comparison special forms: `IS`, `IN`, `LIKE`, `BETWEEN`.
//!
//! Each form has its own parser. A parser receives the already parsed
//! left operand by value, together with the position of the form's
//! keyword. When the form matches it returns the combined expression;
//! when it does not, it hands the left operand back unchanged with
//! [`ParseError::Backtrack`](crate::parse_context::ParseError::Backtrack),
//! so that the caller can go on as if nothing had been consumed.
pub mod between_parser;
pub mod in_parser;
pub mod is_parser;
pub mod like_parser;

use crate::ast::Expr;
use crate::expr::extends_left;
use crate::expr::pratt::PrattParser;
use crate::parse_context::{ParseContext, ParseError};
use vstd::prelude::*;

verus! {

/// A comparison special form: given the left operand, parses its form at
/// `pos`, or hands the left operand back.
pub trait ComparisonParser {
    fn parse(
        &self,
        pratt: &PrattParser,
        s: &[char],
        pos: usize,
        pctx: &mut ParseContext,
        left: Expr,
    ) -> (r: Result<(Expr, usize), (Option<Expr>, ParseError)>)
        requires
            pos <= s@.len(),
        ensures
            old(pctx).next() <= final(pctx).next(),
            extends_left(s@, pos as int, left, old(pctx).next(), final(pctx).next(), r),
    ;
}

} // verus!
