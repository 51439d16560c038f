//! `[NOT] LIKE` with an optional `ESCAPE`.
//!
//! ```text
//! like_expr ::= expr [NOT] LIKE pattern [ESCAPE escape_char]
//! ```
use crate::ast::{expr_ids, ids_within, opt_expr_ids, Expr, Like};
use crate::expr::{extends_left, ids_within_or};
use crate::expr::pratt::{opt_size, spec_bp, tree_is, tree_size, PrattParser, Tree};
use crate::parse_context::{ParseContext, ParseError};
use crate::text::{kw_ws, skip_space, spec_kw_ws, ws0};
use crate::expr::comparison::ComparisonParser;
use vstd::prelude::*;

verus! {

/// Parser of the `LIKE` form.
pub struct LikeParser;

/// `LIKE pattern [ESCAPE escape]` at `pos`, pattern and escape in the
/// operator grammar above `AND` (binding power 5): their shapes and where
/// the form ends.
pub open spec fn like_shape(s: Seq<char>, pos: int) -> Option<(Tree, Option<Tree>, int)>
    decreases s.len() - pos, 0int,
{
    match spec_kw_ws(s, pos, "LIKE"@) {
        Some(p1) => if pos < p1 <= s.len() {
            match spec_bp(s, p1, 5) {
                Some((pt, p2)) => match spec_kw_ws(s, skip_space(s, p2), "ESCAPE"@) {
                    Some(p4) => if pos < p4 <= s.len() {
                        match spec_bp(s, p4, 5) {
                            Some((et, p5)) => Some((pt, Some(et), p5)),
                            None => None,
                        }
                    } else {
                        None
                    },
                    None => Some((pt, None, skip_space(s, p2))),
                },
                None => None,
            }
        } else {
            None
        },
        None => None,
    }
}

impl LikeParser {
    /// Parse `LIKE pattern [ESCAPE escape]` at `pos`, applied to `left`.
    /// The pattern and the escape stop before `AND` and `OR`.
    pub fn parse(
        &self,
        pratt: &PrattParser,
        s: &[char],
        pos: usize,
        pctx: &mut ParseContext,
        left: Expr,
    ) -> (r: Result<(Expr, usize), (Option<Expr>, ParseError)>)
        requires
            pos <= s@.len(),
        ensures
            old(pctx).next() <= final(pctx).next(),
            extends_left(s@, pos as int, left, old(pctx).next(), final(pctx).next(), r),
            spec_kw_ws(s@, pos as int, "LIKE"@) is None ==> r == Err::<
                (Expr, usize),
                (Option<Expr>, ParseError),
            >((Some(left), ParseError::Backtrack)) && final(pctx).next() == old(pctx).next(),
            r matches Ok((e, p)) ==> e matches Expr::Like(n) && *n.node.value == left,
            match like_shape(s@, pos as int) {
                Some((pt, esc, e)) => old(pctx).next() + 1 + tree_size(pt) + opt_size(esc) < u32::MAX ==> (
                r matches Ok((Expr::Like(n), p)) && p == e && *n.node.value == left && tree_is(s@, pt, *n.node.pattern)
                    && match esc {
                    Some(et) => n.node.escape matches Some(b) && tree_is(s@, et, *b),
                    None => n.node.escape is None,
                } && final(pctx).next() == old(pctx).next() + 1 + tree_size(pt) + opt_size(esc)),
                None => true,
            },
        decreases s@.len() - pos, 3nat,
    {
        let ghost lo = pctx.next();
        let p1 = match kw_ws(s, pos, "LIKE") {
            Some(p1) => p1,
            None => {
                return Err((Some(left), ParseError::Backtrack));
            },
        };
        let (pattern, p2) = match pratt.parse_bp(s, p1, pctx, 5) {
            Ok(r) => r,
            Err(err) => {
                return Err((Some(left), err));
            },
        };
        let p3 = ws0(s, p2);
        let ghost mid = pctx.next();
        let (escape, p5) = match kw_ws(s, p3, "ESCAPE") {
            Some(p4) => match pratt.parse_bp(s, p4, pctx, 5) {
                Ok((e, p5)) => (Some(Box::new(e)), p5),
                Err(err) => {
                    return Err((Some(left), err));
                },
            },
            None => (None, p3),
        };
        let ghost left_ids = expr_ids(left);
        proof {
            assert(ids_within(opt_expr_ids(escape), lo, pctx.next()));
        }
        match pctx.node(Like { value: Box::new(left), pattern: Box::new(pattern), escape }) {
            Ok(node) => {
                let e = Expr::Like(node);
                proof {
                    assert(ids_within_or(expr_ids(e), left_ids, lo, pctx.next()));
                }
                Ok((e, p5))
            },
            Err(e) => Err((None, e)),
        }
    }
}

impl ComparisonParser for LikeParser {
    fn parse(
        &self,
        pratt: &PrattParser,
        s: &[char],
        pos: usize,
        pctx: &mut ParseContext,
        left: Expr,
    ) -> (r: Result<(Expr, usize), (Option<Expr>, ParseError)>) {
        LikeParser::parse(self, pratt, s, pos, pctx, left)
    }
}

} // verus!
