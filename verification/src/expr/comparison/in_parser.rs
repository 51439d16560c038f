//! `[NOT] IN` with a parenthesised list.
//!
//! ```text
//! in_expr ::= expr [NOT] IN '(' expr (',' expr)* ')'
//! ```
use crate::ast::{boxed_ids, expr_ids, ids_within, Expr, In, List};
use crate::expr::{extends_left, ids_within_or};
use crate::expr::pratt::{
    items_are, items_end, items_rest, items_size, lemma_items_first, lemma_items_push, lemma_items_size_concat,
    lemma_items_size_push, lemma_items_step, spec_bp, spec_items, PrattParser, Tree,
};
use crate::parse_context::{ParseContext, ParseError};
use crate::text::{ch, char_at, kw_ws0, lemma_lit_char, lit_at, skip_space, spec_kw_ws0, ws0};
use crate::expr::comparison::ComparisonParser;
use vstd::prelude::*;

verus! {

/// Parser of the `IN` form.
pub struct InParser;

/// `IN`, optional blanks and `(` stand at `pos`.
pub open spec fn in_opens_at(s: Seq<char>, pos: int) -> bool {
    spec_kw_ws0(s, pos, "IN"@) matches Some(q) && char_at(s, q, '(')
}

/// The list after `IN` at `pos`: `IN`, `(`, then comma-separated
/// expressions up to `)`; their shapes and where the list ends.
pub open spec fn in_items(s: Seq<char>, pos: int) -> Option<(Seq<Tree>, int)>
    decreases s.len() - pos, 0int,
{
    match spec_kw_ws0(s, pos, "IN"@) {
        Some(q) => if pos <= q && char_at(s, q, '(') {
            spec_items(s, q + 1, seq![')'])
        } else {
            None
        },
        None => None,
    }
}

impl InParser {
    /// Parse `IN (e1, e2, ...)` at `pos`, applied to `left`. The
    /// right-hand side is a list of the parsed expressions.
    pub fn parse(
        &self,
        pratt: &PrattParser,
        s: &[char],
        pos: usize,
        pctx: &mut ParseContext,
        left: Expr,
    ) -> (r: Result<(Expr, usize), (Option<Expr>, ParseError)>)
        requires
            pos <= s@.len(),
        ensures
            old(pctx).next() <= final(pctx).next(),
            extends_left(s@, pos as int, left, old(pctx).next(), final(pctx).next(), r),
            !in_opens_at(s@, pos as int) ==> r == Err::<(Expr, usize), (Option<Expr>, ParseError)>(
                (Some(left), ParseError::Backtrack)) && final(pctx).next() == old(pctx).next(),
            r matches Ok((e, p)) ==> {
                &&& e matches Expr::In(n)
                &&& *n.node.lhs == left
                &&& *n.node.rhs matches Expr::List(l)
                &&& l.node.values.len() >= 1
                &&& s@[p - 1] == ')'
            },
            match in_items(s@, pos as int) {
                Some((ts, e)) => old(pctx).next() + items_size(ts) + 2 < u32::MAX ==> (r matches Ok((Expr::In(n), p))
                    && p == e && *n.node.lhs == left && (*n.node.rhs matches Expr::List(l) && items_are(
                    s@,
                    ts,
                    l.node.values@,
                )) && final(pctx).next() == old(pctx).next() + items_size(ts) + 2),
                None => true,
            },
        decreases s@.len() - pos, 3nat,
    {
        let ghost lo = pctx.next();
        let ghost cl = seq![')'];
        let ghost good = in_items(s@, pos as int) is Some;
        let ghost all: Seq<Tree> = match in_items(s@, pos as int) {
            Some((ts, e)) => ts,
            None => Seq::empty(),
        };
        let ghost fits = good && lo + items_size(all) + 2 < u32::MAX;
        let n = s.len();
        let p1 = match kw_ws0(s, pos, "IN") {
            Some(p1) => p1,
            None => {
                return Err((Some(left), ParseError::Backtrack));
            },
        };
        let p2 = match ch(s, p1, '(') {
            Some(p2) => p2,
            None => {
                return Err((Some(left), ParseError::Backtrack));
            },
        };
        let mut items: Vec<Box<Expr>> = Vec::new();
        let mut p = p2;
        let ghost mut done: Seq<Tree> = Seq::empty();
        proof {
            assert(done + items_rest(s@, p as int, cl) =~= items_rest(s@, p as int, cl));
        }
        loop
            invariant_except_break
                fits ==> spec_items(s@, p as int, cl) is Some && spec_items(
                    s@,
                    p2 as int,
                    cl,
                ) == Some((done + items_rest(s@, p as int, cl), items_end(s@, p as int, cl))) && items_are(
                    s@,
                    done,
                    items@,
                ) && pctx.next() == lo + items_size(done),
            invariant
                fits == (good && lo + items_size(all) + 2 < u32::MAX),
                good ==> (in_items(s@, pos as int) matches Some((ts, e)) && ts == all),
                good == (in_items(s@, pos as int) is Some),
                good ==> in_items(s@, pos as int) == spec_items(s@, p2 as int, cl),
                cl == seq![')'],
                n == s@.len(),
                in_opens_at(s@, pos as int),
                pos < p <= s@.len(),
                lo == old(pctx).next(),
                lo <= pctx.next(),
                ids_within(boxed_ids(items@), lo, pctx.next()),
            ensures
                pos < p <= s@.len(),
                lo <= pctx.next(),
                ids_within(boxed_ids(items@), lo, pctx.next()),
                items@.len() >= 1,
                fits ==> lit_at(s@, p as int, cl) && p == skip_space(s@, p as int)
                    && spec_items(s@, p2 as int, cl) == Some((done, p + 1)) && items_are(s@, done, items@)
                    && pctx.next() == lo + items_size(done),
            decreases s@.len() - p,
        {
            let q = ws0(s, p);
            let ghost t = match spec_bp(s@, q as int, 0) {
                Some((t, e)) => t,
                None => Tree::Atom(0),
            };
            let ghost p_old = p;
            proof {
                if fits {
                    lemma_items_first(s@, p as int, cl, t);
                    lemma_items_size_concat(done, items_rest(s@, p as int, cl));
                }
            }
            let (e, q2) = match pratt.parse_expr(s, q, pctx) {
                Ok(r) => r,
                Err(err) => {
                    return Err((Some(left), err));
                },
            };
            let ghost before = items@;
            let ghost xb = Box::new(e);
            items.push(Box::new(e));
            proof {
                assert(items@.drop_last() =~= before);
                if fits {
                    lemma_items_step(s@, p2 as int, p_old as int, cl, done, t, q2 as int);
                    lemma_items_size_push(done, t);
                    lemma_items_push(s@, done, before, t, xb);
                    assert(items@ == before.push(xb));
                }
                done = done.push(t);
            }
            let q3 = ws0(s, q2);
            match ch(s, q3, ',') {
                Some(q4) => {
                    p = q4;
                },
                None => {
                    p = q3;
                    break ;
                },
            }
        }
        let q = ws0(s, p);
        proof {
            lemma_lit_char(s@, q as int, ')');
        }
        let q2 = match ch(s, q, ')') {
            Some(q2) => q2,
            None => {
                return Err((Some(left), ParseError::Backtrack));
            },
        };
        let list = match pctx.node(List { values: items }) {
            Ok(node) => Expr::List(node),
            Err(e) => {
                return Err((Some(left), e));
            },
        };
        let ghost left_ids = expr_ids(left);
        let ghost list_ids = expr_ids(list);
        match pctx.node(In { lhs: Box::new(left), rhs: Box::new(list) }) {
            Ok(node) => {
                let e = Expr::In(node);
                proof {
                    assert(ids_within(list_ids, lo, pctx.next()));
                    assert(ids_within_or(expr_ids(e), left_ids, lo, pctx.next()));
                }
                Ok((e, q2))
            },
            Err(e) => Err((None, e)),
        }
    }
}

impl ComparisonParser for InParser {
    fn parse(
        &self,
        pratt: &PrattParser,
        s: &[char],
        pos: usize,
        pctx: &mut ParseContext,
        left: Expr,
    ) -> (r: Result<(Expr, usize), (Option<Expr>, ParseError)>) {
        InParser::parse(self, pratt, s, pos, pctx, left)
    }
}

} // verus!
