//! SQL single-quoted string literals: `'hello'`.
//!
//! Double-quoted text (`"fde.users"`) is a case-sensitive identifier in
//! PartiQL, not a string literal; the identifier parser handles it.
use crate::ast::{Expr, Lit};
use crate::expr::expr_parsed;
use crate::literal::ion::string::{lemma_sql_body_advances, spec_sql_string, sql_string};
use crate::literal::{lit_outcome, text_of};
use crate::parse_context::{ParseContext, ParseError};
use crate::expr::StrategyContext;
use crate::literal::LiteralStrategy;
use vstd::prelude::*;

verus! {

/// The text of the SQL string at `pos`, and its end.
pub open spec fn string_end(s: Seq<char>, pos: int) -> Option<int> {
    match spec_sql_string(s, pos) {
        Some((t, q)) => Some(q),
        None => None,
    }
}

/// `l` is the string literal with text `t`.
pub open spec fn is_string_lit(l: Lit, t: Seq<char>) -> bool {
    l matches Lit::CharStringLit(v) && v@ == t
}

/// Strategy for SQL string literals.
pub struct StringLiteralStrategy;

impl StringLiteralStrategy {
    /// Parse `'...'` at `pos` into a `CharStringLit`.
    pub fn parse(&self, s: &[char], pos: usize, pctx: &mut ParseContext) -> (r: Result<
        (Expr, usize),
        ParseError,
    >)
        requires
            pos <= s@.len(),
        ensures
            old(pctx).next() <= final(pctx).next(),
            expr_parsed(s@, pos as int, old(pctx).next(), final(pctx).next(), r),
            r is Ok ==> final(pctx).next() == old(pctx).next() + 1,
            lit_outcome(
                r,
                old(pctx).next(),
                string_end(s@, pos as int),
                |l: Lit| is_string_lit(l, text_of(spec_sql_string(s@, pos as int))),
            ),
    {
        proof {
            if pos < s@.len() && s@[pos as int] == '\'' {
                lemma_sql_body_advances(s@, pos + 1);
            }
        }
        let (text, p) = sql_string(s, pos)?;
        let node = pctx.node(Lit::CharStringLit(text))?;
        Ok((Expr::Lit(node), p))
    }
}

impl LiteralStrategy for StringLiteralStrategy {
    fn parse(&self, ctx: &StrategyContext, s: &[char], pos: usize, pctx: &mut ParseContext) -> (r: Result<
        (Expr, usize),
        ParseError,
    >) {
        StringLiteralStrategy::parse(self, s, pos, pctx)
    }
}

} // verus!
