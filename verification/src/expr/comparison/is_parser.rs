//! `IS [NOT] NULL` and `IS [NOT] MISSING`.
//!
//! ```text
//! is_expr ::= expr IS [NOT] NULL
//!           | expr IS [NOT] MISSING
//! ```
use crate::ast::{expr_ids, BinOp, BinOpKind, Expr, Lit, UniOp, UniOpKind};
use crate::expr::{extends_left, ids_within_or};
use crate::expr::pratt::PrattParser;
use crate::parse_context::{ParseContext, ParseError};
use crate::text::{kw, kw_at, kw_ws, spec_kw_ws};
use crate::expr::comparison::ComparisonParser;
use vstd::prelude::*;

verus! {

/// Parser of the `IS` form.
pub struct IsParser;

/// The `IS` tail at `pos`: whether it is negated, whether it tests for
/// `NULL` (else `MISSING`), and where it ends.
pub open spec fn spec_is_tail(s: Seq<char>, pos: int) -> Option<(bool, bool, int)> {
    match spec_kw_ws(s, pos, "IS"@) {
        None => None,
        Some(p1) => {
            let negated = spec_kw_ws(s, p1, "NOT"@) is Some;
            let p2 = match spec_kw_ws(s, p1, "NOT"@) {
                Some(q) => q,
                None => p1,
            };
            if kw_at(s, p2, "NULL"@) {
                Some((negated, true, p2 + "NULL"@.len()))
            } else if kw_at(s, p2, "MISSING"@) {
                Some((negated, false, p2 + "MISSING"@.len()))
            } else {
                None
            }
        },
    }
}

/// `e` is `left IS NULL` (or `left IS MISSING` when `null` is false).
pub open spec fn is_test(e: Expr, left: Expr, null: bool) -> bool {
    &&& e matches Expr::BinOp(b)
    &&& b.node.kind == BinOpKind::Is
    &&& *b.node.lhs == left
    &&& *b.node.rhs matches Expr::Lit(l)
    &&& if null {
        l.node is Null
    } else {
        l.node is Missing
    }
}

/// `e` is the `IS` test, wrapped in `NOT` when `negated`.
pub open spec fn is_form(e: Expr, left: Expr, negated: bool, null: bool) -> bool {
    if negated {
        e matches Expr::UniOp(u) && u.node.kind == UniOpKind::Not && is_test(*u.node.expr, left, null)
    } else {
        is_test(e, left, null)
    }
}

impl IsParser {
    /// Parse `IS [NOT] NULL|MISSING` at `pos`, applied to `left`.
    pub fn parse(
        &self,
        pratt: &PrattParser,
        s: &[char],
        pos: usize,
        pctx: &mut ParseContext,
        left: Expr,
    ) -> (r: Result<(Expr, usize), (Option<Expr>, ParseError)>)
        requires
            pos <= s@.len(),
        ensures
            old(pctx).next() <= final(pctx).next(),
            extends_left(s@, pos as int, left, old(pctx).next(), final(pctx).next(), r),
            spec_is_tail(s@, pos as int) is None ==> r == Err::<(Expr, usize), (Option<Expr>, ParseError)>(
                (Some(left), ParseError::Backtrack)) && final(pctx).next() == old(pctx).next(),
            spec_is_tail(s@, pos as int) matches Some((negated, null, q)) ==> {
                &&& old(pctx).next() + 3 <= u32::MAX ==> r is Ok
                &&& r is Ok ==> final(pctx).next() == old(pctx).next() + if negated {
                    3nat
                } else {
                    2nat
                }
                &&& r matches Ok((e, p)) ==> p == q && is_form(e, left, negated, null)
                &&& r matches Err((_, err)) ==> err == ParseError::NodeIdsExhausted
            },
    {
        let ghost lo = pctx.next();
        proof {
            reveal_strlit("IS");
            reveal_strlit("NULL");
            reveal_strlit("MISSING");
        }
        let p1 = match kw_ws(s, pos, "IS") {
            Some(p1) => p1,
            None => {
                return Err((Some(left), ParseError::Backtrack));
            },
        };
        let (negated, p2) = match kw_ws(s, p1, "NOT") {
            Some(q) => (true, q),
            None => (false, p1),
        };
        let (lit, p3) = match kw(s, p2, "NULL") {
            Some(q) => (Lit::Null, q),
            None => match kw(s, p2, "MISSING") {
                Some(q) => (Lit::Missing, q),
                None => {
                    return Err((Some(left), ParseError::Backtrack));
                },
            },
        };
        let rhs = match pctx.node(lit) {
            Ok(n) => Expr::Lit(n),
            Err(e) => {
                return Err((Some(left), e));
            },
        };
        let ghost left_ids = expr_ids(left);
        let ghost rhs_ids = expr_ids(rhs);
        proof {
            assert(rhs_ids =~= set![lo]);
        }
        let test = match pctx.node(BinOp { kind: BinOpKind::Is, lhs: Box::new(left), rhs: Box::new(rhs) }) {
            Ok(n) => Expr::BinOp(n),
            Err(e) => {
                return Err((None, e));
            },
        };
        proof {
            assert(expr_ids(test) =~= set![(lo + 1) as nat].union(left_ids).union(rhs_ids));
            assert(ids_within_or(expr_ids(test), left_ids, lo, pctx.next()));
        }
        if negated {
            match pctx.node(UniOp { kind: UniOpKind::Not, expr: Box::new(test) }) {
                Ok(n) => {
                    let e = Expr::UniOp(n);
                    proof {
                        assert(ids_within_or(expr_ids(e), left_ids, lo, pctx.next()));
                    }
                    Ok((e, p3))
                },
                Err(e) => Err((None, e)),
            }
        } else {
            Ok((test, p3))
        }
    }
}

impl ComparisonParser for IsParser {
    fn parse(
        &self,
        pratt: &PrattParser,
        s: &[char],
        pos: usize,
        pctx: &mut ParseContext,
        left: Expr,
    ) -> (r: Result<(Expr, usize), (Option<Expr>, ParseError)>) {
        IsParser::parse(self, pratt, s, pos, pctx, left)
    }
}

} // verus!
