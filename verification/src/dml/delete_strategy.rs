//! `DELETE FROM source [WHERE expr]`.
use crate::ast::{Delete, Dml, DmlOp, FromClause};
use crate::dml::{dml_parsed, DmlStrategy};
use crate::dml::update_strategy::where_shape;
use crate::dql::from_clause::{parse_source, source_is, source_shape};
use crate::expr::pratt::{opt_size, opt_tree_is, tree_size, Tree};
use crate::expr::{lemma_no_kw_at_stop, lemma_stop_fixed, lone_atom_end, ExprChain};
use crate::parse_context::{ParseContext, ParseError};
use crate::text::{kw_ws, skip_space, spec_kw_ws, ws0};
use vstd::prelude::*;

verus! {

/// `DELETE FROM` and an atom standing alone as the source, at `pos`:
/// the position of the stop after the atom.
pub open spec fn plain_delete(s: Seq<char>, pos: int) -> Option<int> {
    match spec_kw_ws(s, skip_space(s, pos), "DELETE"@) {
        Some(q) => match spec_kw_ws(s, q, "FROM"@) {
            Some(t) => lone_atom_end(s, t),
            None => None,
        },
        None => None,
    }
}

/// `DELETE FROM source [WHERE condition]` after blanks at `pos`, source
/// and condition in the grammar of [`source_shape`] and [`where_shape`]:
/// the source's shape and alias names, the condition's shape if any, and
/// where the statement ends.
pub open spec fn delete_shape(s: Seq<char>, pos: int) -> Option<(Tree, Option<Seq<char>>, Option<Seq<char>>, Option<Tree>, int)> {
    match spec_kw_ws(s, skip_space(s, pos), "DELETE"@) {
        Some(q) => match spec_kw_ws(s, q, "FROM"@) {
            Some(p1) => match source_shape(s, p1) {
                Some((t, a1, a2, p2)) => match where_shape(s, p2) {
                    Some((c, e)) => Some((t, a1, a2, c, e)),
                    None => None,
                },
                None => None,
            },
            None => None,
        },
        None => None,
    }
}

/// Strategy for `DELETE`.
pub struct DeleteStrategy<'p> {
    chain: &'p ExprChain,
}

impl<'p> DeleteStrategy<'p> {
    pub fn new(chain: &'p ExprChain) -> (r: Self) {
        DeleteStrategy { chain }
    }

    /// Parse `DELETE FROM source [WHERE condition]` at `pos`.
    pub fn parse(&self, s: &[char], pos: usize, pctx: &mut ParseContext) -> (r: Result<
        (Dml, usize),
        ParseError,
    >)
        requires
            pos <= s@.len(),
        ensures
            old(pctx).next() <= final(pctx).next(),
            dml_parsed(s@, pos as int, old(pctx).next(), final(pctx).next(), r),
            !(spec_kw_ws(s@, skip_space(s@, pos as int), "DELETE"@) matches Some(q) && spec_kw_ws(
                s@,
                q,
                "FROM"@,
            ) is Some) ==> r == Err::<(Dml, usize), ParseError>(ParseError::Backtrack) && final(pctx).next()
                == old(pctx).next(),
            r matches Ok((d, p)) ==> d.op is Delete && d.from_clause is Some,
            match plain_delete(s@, pos as int) {
                Some(e) => old(pctx).next() + 1 < u32::MAX ==> (r matches Ok((d, p)) && p == e && d.where_clause is None),
                None => true,
            },
            match delete_shape(s@, pos as int) {
                Some((t, a1, a2, c, e)) => old(pctx).next() + tree_size(t) + 1 + opt_size(c) < u32::MAX ==> (r matches Ok((d, p)) && p == e && (
                d.from_clause matches Some(fc) && source_is(s@, fc.source, t, a1, a2)) && opt_tree_is(
                    s@,
                    c,
                    d.where_clause,
                )),
                None => true,
            },
    {
        let ghost lo = pctx.next();
        proof {
            reveal_strlit("WHERE");
            match plain_delete(s@, pos as int) {
                Some(e) => {
                    lemma_stop_fixed(s@, e);
                    lemma_no_kw_at_stop(s@, e, "WHERE"@);
                },
                None => {},
            }
        }
        let p0 = ws0(s, pos);
        let p1 = match kw_ws(s, p0, "DELETE") {
            Some(q) => match kw_ws(s, q, "FROM") {
                Some(q2) => q2,
                None => {
                    return Err(ParseError::Backtrack);
                },
            },
            None => {
                return Err(ParseError::Backtrack);
            },
        };
        let (source, p2) = parse_source(self.chain, s, p1, pctx)?;
        let p3 = ws0(s, p2);
        let (where_clause, p4) = match kw_ws(s, p3, "WHERE") {
            Some(q) => {
                let (e, q2) = self.chain.parse_expr(s, q, pctx)?;
                (Some(Box::new(e)), q2)
            },
            None => (None, p3),
        };
        Ok((Dml { op: DmlOp::Delete(Delete {}), from_clause: Some(FromClause { source }), where_clause }, p4))
    }
}

impl<'p> DmlStrategy for DeleteStrategy<'p> {
    fn parse(&self, s: &[char], pos: usize, pctx: &mut ParseContext) -> (r: Result<(Dml, usize), ParseError>) {
        DeleteStrategy::parse(self, s, pos, pctx)
    }
}

} // verus!
