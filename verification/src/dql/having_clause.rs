//! `HAVING` clause.
//!
//! ```text
//! having_clause ::= HAVING expr
//! ```
use crate::ast::{expr_ids, ids_within, AstNode, HavingClause};
use crate::expr::pratt::{binary_atoms, binary_atoms_is};
use crate::expr::{atom_is, lone_atom_end, ExprChain};
use crate::expr::pratt::{spec_bp, tree_is, tree_size};
use crate::parse_context::{ParseContext, ParseError};
use crate::text::skip_space;
use vstd::prelude::*;

verus! {

/// Parser of the condition after `HAVING`.
pub struct HavingClauseParser<'p> {
    chain: &'p ExprChain,
}

impl<'p> HavingClauseParser<'p> {
    pub fn new(chain: &'p ExprChain) -> (r: Self) {
        HavingClauseParser { chain }
    }

    /// Parse the condition at `pos`.
    pub fn parse(&self, s: &[char], pos: usize, pctx: &mut ParseContext) -> (r: Result<
        (Box<AstNode<HavingClause>>, usize),
        ParseError,
    >)
        requires
            pos <= s@.len(),
        ensures
            old(pctx).next() <= final(pctx).next(),
            r matches Ok((w, p)) ==> pos < p <= s@.len() && ids_within(
                expr_ids(*w.node.expr).insert(w.id.0 as nat),
                old(pctx).next(),
                final(pctx).next(),
            ),
            match lone_atom_end(s@, pos as int) {
                Some(e) => old(pctx).next() + 1 < u32::MAX ==> (r matches Ok((w, p)) && p == e && atom_is(
                    s@,
                    skip_space(s@, pos as int),
                    *w.node.expr,
                    old(pctx).next(),
                )),
                None => true,
            },
            match binary_atoms(s@, pos as int, 0) {
                Some((k, a, e)) => old(pctx).next() + 4 < u32::MAX ==> (r matches Ok((w, p)) && p == e
                    && binary_atoms_is(s@, pos as int, k, a, *w.node.expr, old(pctx).next())),
                None => true,
            },
            match spec_bp(s@, pos as int, 0) {
                Some((t, e)) => old(pctx).next() + tree_size(t) + 1 < u32::MAX ==> (r matches Ok((w, p)) && p == e
                    && tree_is(s@, t, *w.node.expr) && final(pctx).next() == old(pctx).next() + tree_size(t) + 1),
                None => true,
            },
    {
        let (expr, p) = self.chain.parse_expr(s, pos, pctx)?;
        let node = pctx.node(HavingClause { expr: Box::new(expr) })?;
        Ok((Box::new(node), p))
    }
}

} // verus!
