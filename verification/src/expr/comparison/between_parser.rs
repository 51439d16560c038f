//! `[NOT] BETWEEN low AND high`.
//!
//! ```text
//! between_expr ::= expr [NOT] BETWEEN low AND high
//! ```
use crate::ast::{expr_ids, Between, Expr};
use crate::expr::{extends_left, ids_within_or};
use crate::expr::pratt::{spec_bp, tree_is, tree_size, PrattParser, Tree};
use crate::parse_context::{ParseContext, ParseError};
use crate::text::{kw_ws, skip_space, spec_kw_ws, ws0};
use crate::expr::comparison::ComparisonParser;
use vstd::prelude::*;

verus! {

/// Parser of the `BETWEEN` form.
pub struct BetweenParser;

/// `BETWEEN low AND high` at `pos`, each bound in the operator grammar
/// above `AND` (binding power 5): the shapes of the bounds and where the
/// form ends.
pub open spec fn between_shape(s: Seq<char>, pos: int) -> Option<(Tree, Tree, int)>
    decreases s.len() - pos, 0int,
{
    match spec_kw_ws(s, pos, "BETWEEN"@) {
        Some(p1) => if pos < p1 <= s.len() { match spec_bp(s, p1, 5) {
            Some((lo, p2)) => match spec_kw_ws(s, skip_space(s, p2), "AND"@) {
                Some(p4) => if pos < p4 <= s.len() { match spec_bp(s, p4, 5) {
                    Some((hi, p5)) => Some((lo, hi, p5)),
                    None => None,
                } } else { None },
                None => None,
            },
            None => None,
        } } else { None },
        None => None,
    }
}

impl BetweenParser {
    /// Parse `BETWEEN low AND high` at `pos`, applied to `left`. Both
    /// bounds stop before `AND` and `OR`.
    pub fn parse(
        &self,
        pratt: &PrattParser,
        s: &[char],
        pos: usize,
        pctx: &mut ParseContext,
        left: Expr,
    ) -> (r: Result<(Expr, usize), (Option<Expr>, ParseError)>)
        requires
            pos <= s@.len(),
        ensures
            old(pctx).next() <= final(pctx).next(),
            extends_left(s@, pos as int, left, old(pctx).next(), final(pctx).next(), r),
            spec_kw_ws(s@, pos as int, "BETWEEN"@) is None ==> r == Err::<
                (Expr, usize),
                (Option<Expr>, ParseError),
            >((Some(left), ParseError::Backtrack)) && final(pctx).next() == old(pctx).next(),
            r matches Ok((e, p)) ==> e matches Expr::Between(n) && *n.node.value == left,
            match between_shape(s@, pos as int) {
                Some((lo, hi, e)) => old(pctx).next() + 1 + tree_size(lo) + tree_size(hi) < u32::MAX ==> (r matches Ok(
                    (Expr::Between(n), p),
                ) && p == e && *n.node.value == left && tree_is(s@, lo, *n.node.from) && tree_is(s@, hi, *n.node.to)
                    && final(pctx).next() == old(pctx).next() + 1 + tree_size(lo) + tree_size(hi)),
                None => true,
            },
        decreases s@.len() - pos, 3nat,
    {
        let ghost lo = pctx.next();
        let p1 = match kw_ws(s, pos, "BETWEEN") {
            Some(p1) => p1,
            None => {
                return Err((Some(left), ParseError::Backtrack));
            },
        };
        let (from, p2) = match pratt.parse_bp(s, p1, pctx, 5) {
            Ok(r) => r,
            Err(err) => {
                return Err((Some(left), err));
            },
        };
        let p3 = ws0(s, p2);
        let p4 = match kw_ws(s, p3, "AND") {
            Some(p4) => p4,
            None => {
                return Err((Some(left), ParseError::Backtrack));
            },
        };
        let (to, p5) = match pratt.parse_bp(s, p4, pctx, 5) {
            Ok(r) => r,
            Err(err) => {
                return Err((Some(left), err));
            },
        };
        let ghost left_ids = expr_ids(left);
        match pctx.node(Between { value: Box::new(left), from: Box::new(from), to: Box::new(to) }) {
            Ok(node) => {
                let e = Expr::Between(node);
                proof {
                    assert(ids_within_or(expr_ids(e), left_ids, lo, pctx.next()));
                }
                Ok((e, p5))
            },
            Err(e) => Err((None, e)),
        }
    }
}

impl ComparisonParser for BetweenParser {
    fn parse(
        &self,
        pratt: &PrattParser,
        s: &[char],
        pos: usize,
        pctx: &mut ParseContext,
        left: Expr,
    ) -> (r: Result<(Expr, usize), (Option<Expr>, ParseError)>) {
        BetweenParser::parse(self, pratt, s, pos, pctx, left)
    }
}

} // verus!
