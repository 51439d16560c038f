//! `LIMIT` and `OFFSET`.
//!
//! ```text
//! limit_offset ::= LIMIT expr [OFFSET expr]
//!                | OFFSET expr
//! ```
use crate::ast::{ids_within, opt_expr_ids, AstNode, LimitOffsetClause};
use crate::expr::ExprChain;
use crate::expr::pratt::{Tree, opt_size, opt_tree_is, spec_bp};
use crate::parse_context::{ParseContext, ParseError};
use crate::text::{kw_ws, spec_kw_ws, skip_space, ws0};
use vstd::prelude::*;

verus! {

/// Parser of `LIMIT` and `OFFSET`.
pub struct LimitOffsetClauseParser<'p> {
    chain: &'p ExprChain,
}

/// `LIMIT` and/or `OFFSET` after blanks at `pos`, each with an expression
/// in the operator grammar: their shapes (absent where the word is), and
/// where the clause ends. No answer where neither word stands there.
pub open spec fn limit_shape(s: Seq<char>, pos: int) -> Option<(Option<Tree>, Option<Tree>, int)> {
    let p0 = skip_space(s, pos);
    let lim = match spec_kw_ws(s, p0, "LIMIT"@) {
        Some(q) => match spec_bp(s, q, 0) {
            Some((t, e)) => Some((Some(t), e)),
            None => None,
        },
        None => Some((None, p0)),
    };
    match lim {
        Some((l, p1)) => {
            let off = match spec_kw_ws(s, skip_space(s, p1), "OFFSET"@) {
                Some(q) => match spec_bp(s, q, 0) {
                    Some((t, e)) => Some((Some(t), e)),
                    None => None,
                },
                None => Some((None, p1)),
            };
            match off {
                Some((o, p3)) => if l is None && o is None {
                    None
                } else {
                    Some((l, o, p3))
                },
                None => None,
            }
        },
        None => None,
    }
}

impl<'p> LimitOffsetClauseParser<'p> {
    pub fn new(chain: &'p ExprChain) -> (r: Self) {
        LimitOffsetClauseParser { chain }
    }

    /// Parse `LIMIT` and/or `OFFSET` after optional blanks at `pos`;
    /// `Backtrack` when neither stands there.
    pub fn parse(&self, s: &[char], pos: usize, pctx: &mut ParseContext) -> (r: Result<
        (Box<AstNode<LimitOffsetClause>>, usize),
        ParseError,
    >)
        requires
            pos <= s@.len(),
        ensures
            old(pctx).next() <= final(pctx).next(),
            r matches Ok((l, p)) ==> {
                &&& pos < p <= s@.len()
                &&& ids_within(
                    opt_expr_ids(l.node.limit).union(opt_expr_ids(l.node.offset)).insert(l.id.0 as nat),
                    old(pctx).next(),
                    final(pctx).next(),
                )
                &&& (l.node.limit is Some <==> spec_kw_ws(s@, skip_space(s@, pos as int), "LIMIT"@) is Some)
            },
            spec_kw_ws(s@, skip_space(s@, pos as int), "LIMIT"@) is None && spec_kw_ws(
                s@,
                skip_space(s@, pos as int),
                "OFFSET"@,
            ) is None ==> r == Err::<(Box<AstNode<LimitOffsetClause>>, usize), ParseError>(
                ParseError::Backtrack) && final(pctx).next() == old(pctx).next(),
            match limit_shape(s@, pos as int) {
                Some((l, o, e)) => old(pctx).next() + opt_size(l) + opt_size(o) + 1 < u32::MAX ==> (r matches Ok((c, p))
                    && p == e && opt_tree_is(s@, l, c.node.limit) && opt_tree_is(s@, o, c.node.offset)
                    && final(pctx).next() == old(pctx).next() + opt_size(l) + opt_size(o) + 1),
                None => true,
            },
    {
        let ghost lo = pctx.next();
        let p0 = ws0(s, pos);
        let (limit, p1) = match kw_ws(s, p0, "LIMIT") {
            Some(q) => {
                let (e, q2) = self.chain.parse_expr(s, q, pctx)?;
                (Some(Box::new(e)), q2)
            },
            None => (None, p0),
        };
        let ghost mid = pctx.next();
        let p2 = ws0(s, p1);
        let (offset, p3) = match kw_ws(s, p2, "OFFSET") {
            Some(q) => {
                let (e, q2) = self.chain.parse_expr(s, q, pctx)?;
                (Some(Box::new(e)), q2)
            },
            None => (None, p1),
        };
        if limit.is_none() && offset.is_none() {
            return Err(ParseError::Backtrack);
        }
        proof {
            assert(ids_within(opt_expr_ids(limit), lo, pctx.next()));
            assert(ids_within(opt_expr_ids(offset), lo, pctx.next()));
        }
        let node = pctx.node(LimitOffsetClause { limit, offset })?;
        Ok((Box::new(node), p3))
    }
}

} // verus!
