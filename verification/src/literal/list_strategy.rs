//! List constructor: `[expr, expr, ...]`.
//!
//! ```text
//! list ::= '[' expr (',' expr)* ']'
//!        | '[' ']'
//! ```
use crate::ast::{boxed_ids, ids_within, Expr, List};
use crate::expr::expr_parsed;
use crate::expr::pratt::{
    items_are, items_end, items_rest, items_size, lemma_items_first, lemma_items_push, lemma_items_size_concat,
    lemma_items_size_push, lemma_items_step, spec_bp, spec_delimited, spec_items, tree_size,
    PrattParser, Tree,
};
use crate::parse_context::{ParseContext, ParseError};
use crate::text::{ch, char_at, lemma_lit_char, lit_at, skip_space, ws0};
use crate::expr::StrategyContext;
use crate::literal::LiteralStrategy;
use vstd::prelude::*;

verus! {

/// Strategy for list constructors.
pub struct ListConstructorStrategy;

impl ListConstructorStrategy {
    /// Parse `[e1, e2, ...]` at `pos` into a `List` of the elements.
    pub fn parse(&self, pratt: &PrattParser, s: &[char], pos: usize, pctx: &mut ParseContext) -> (r:
        Result<(Expr, usize), ParseError>)
        requires
            pos <= s@.len(),
        ensures
            old(pctx).next() <= final(pctx).next(),
            expr_parsed(s@, pos as int, old(pctx).next(), final(pctx).next(), r),
            !char_at(s@, pos as int, '[') ==> r == Err::<(Expr, usize), ParseError>(ParseError::Backtrack),
            r matches Ok((e, p)) ==> e matches Expr::List(_) && s@[p - 1] == ']',
            match spec_delimited(s@, pos as int, seq!['['], seq![']']) {
                Some((ts, e)) => old(pctx).next() + 1 + items_size(ts) < u32::MAX ==> (r matches Ok((Expr::List(l), p)) && p
                    == e && items_are(s@, ts, l.node.values@) && final(pctx).next() == old(pctx).next() + 1 + items_size(ts)),
                None => true,
            },
        decreases s@.len() - pos, 2nat,
    {
        let ghost lo = pctx.next();
        let ghost cl = seq![']'];
        let ghost good = spec_delimited(s@, pos as int, seq!['['], cl) is Some;
        let ghost all: Seq<Tree> = match spec_delimited(s@, pos as int, seq!['['], cl) {
            Some((ts, e)) => ts,
            None => Seq::empty(),
        };
        let ghost fits = good && lo + 1 + items_size(all) < u32::MAX;
        let n = s.len();
        proof {
            lemma_lit_char(s@, pos as int, '[');
        }
        let p1 = match ch(s, pos, '[') {
            Some(p1) => p1,
            None => {
                return Err(ParseError::Backtrack);
            },
        };
        let p2 = ws0(s, p1);
        let mut values: Vec<Box<Expr>> = Vec::new();
        proof {
            lemma_lit_char(s@, p2 as int, ']');
        }
        if let Some(q) = ch(s, p2, ']') {
            proof {
                assert(boxed_ids(values@) =~= Set::<nat>::empty());
            }
            let node = pctx.node(List { values })?;
            return Ok((Expr::List(node), q));
        }
        let mut p = p2;
        let ghost mut done: Seq<Tree> = Seq::empty();
        proof {
            assert(done + items_rest(s@, p as int, cl) =~= items_rest(s@, p as int, cl));
        }
        loop
            invariant_except_break
                fits ==> spec_items(s@, p as int, cl) is Some && spec_items(
                    s@,
                    p2 as int,
                    cl,
                ) == Some((done + items_rest(s@, p as int, cl), items_end(s@, p as int, cl))) && items_are(
                    s@,
                    done,
                    values@,
                ) && pctx.next() == lo + items_size(done) && done + items_rest(s@, p as int, cl) == all,
            invariant
                fits == (good && lo + 1 + items_size(all) < u32::MAX),
                good ==> (spec_delimited(s@, pos as int, seq!['['], cl) matches Some((ts, e)) && ts == all),
                good == (spec_delimited(s@, pos as int, seq!['['], cl) is Some),
                cl == seq![']'],
                !char_at(s@, p2 as int, ']'),
                p2 == skip_space(s@, pos + 1),
                n == s@.len(),
                char_at(s@, pos as int, '['),
                pos < p <= s@.len(),
                lo == old(pctx).next(),
                lo <= pctx.next(),
                ids_within(boxed_ids(values@), lo, pctx.next()),
            ensures
                pos < p <= s@.len(),
                lo <= pctx.next(),
                ids_within(boxed_ids(values@), lo, pctx.next()),
                fits ==> lit_at(s@, p as int, cl) && p == skip_space(s@, p as int)
                    && spec_items(s@, p2 as int, cl) == Some((done, p + 1)) && items_are(s@, done, values@)
                    && pctx.next() == lo + items_size(done),
            decreases s@.len() - p,
        {
            let q = ws0(s, p);
            let ghost t = match spec_bp(s@, q as int, 0) {
                Some((t, e)) => t,
                None => Tree::Atom(0),
            };
            let ghost p_old = p;
            proof {
                if fits {
                    lemma_items_first(s@, p as int, cl, t);
                    lemma_items_size_concat(done, items_rest(s@, p as int, cl));
                    assert(done + items_rest(s@, p as int, cl) == all);
                    assert(pctx.next() + tree_size(t) < u32::MAX);
                }
            }
            let (e, q2) = pratt.parse_expr(s, q, pctx)?;
            let ghost before = values@;
            let ghost xb = Box::new(e);
            values.push(Box::new(e));
            proof {
                assert(values@.drop_last() =~= before);
                if fits {
                    lemma_items_step(s@, p2 as int, p_old as int, cl, done, t, q2 as int);
                    lemma_items_size_push(done, t);
                    lemma_items_push(s@, done, before, t, xb);
                    assert(values@ == before.push(xb));
                }
                done = done.push(t);
            }
            let q3 = ws0(s, q2);
            match ch(s, q3, ',') {
                Some(q4) => {
                    p = q4;
                },
                None => {
                    p = q3;
                    break ;
                },
            }
        }
        let q = ws0(s, p);
        proof {
            lemma_lit_char(s@, q as int, ']');
        }
        let q2 = match ch(s, q, ']') {
            Some(q2) => q2,
            None => {
                return Err(ParseError::Backtrack);
            },
        };
        let node = pctx.node(List { values })?;
        Ok((Expr::List(node), q2))
    }
}

impl LiteralStrategy for ListConstructorStrategy {
    fn parse(&self, ctx: &StrategyContext, s: &[char], pos: usize, pctx: &mut ParseContext) -> (r: Result<
        (Expr, usize),
        ParseError,
    >) {
        ListConstructorStrategy::parse(self, ctx.pratt, s, pos, pctx)
    }
}

} // verus!
