//! `UPSERT INTO target values`.
//!
//! ```text
//! upsert_stmt ::= UPSERT INTO expr expr
//! ```
//! `UPSERT` shares the insert form.
use crate::ast::{Dml, DmlOp, Insert};
use crate::dml::{dml_parsed, insert_built, insert_shape, DmlStrategy};
use crate::expr::ExprChain;
use crate::parse_context::{ParseContext, ParseError};
use crate::text::{kw_ws, skip_space, spec_kw_ws, ws0};
use vstd::prelude::*;

verus! {

/// Strategy for `UPSERT`.
pub struct UpsertStrategy<'p> {
    chain: &'p ExprChain,
}

impl<'p> UpsertStrategy<'p> {
    pub fn new(chain: &'p ExprChain) -> (r: Self) {
        UpsertStrategy { chain }
    }

    /// Parse `UPSERT INTO target values` at `pos`: the target and the values
    /// are expressions, held as an insert.
    pub fn parse(&self, s: &[char], pos: usize, pctx: &mut ParseContext) -> (r: Result<
        (Dml, usize),
        ParseError,
    >)
        requires
            pos <= s@.len(),
        ensures
            old(pctx).next() <= final(pctx).next(),
            dml_parsed(s@, pos as int, old(pctx).next(), final(pctx).next(), r),
            !(spec_kw_ws(s@, skip_space(s@, pos as int), "UPSERT"@) matches Some(q) && spec_kw_ws(
                s@,
                q,
                "INTO"@,
            ) is Some) ==> r == Err::<(Dml, usize), ParseError>(ParseError::Backtrack) && final(pctx).next()
                == old(pctx).next(),
            r matches Ok((d, p)) ==> d.op is Insert && d.from_clause is None && d.where_clause is None,
            insert_built(s@, insert_shape(s@, pos as int, "UPSERT"@), old(pctx).next() as nat, final(pctx).next() as nat, r),
    {
        let p0 = ws0(s, pos);
        let p1 = match kw_ws(s, p0, "UPSERT") {
            Some(q) => match kw_ws(s, q, "INTO") {
                Some(q2) => q2,
                None => {
                    return Err(ParseError::Backtrack);
                },
            },
            None => {
                return Err(ParseError::Backtrack);
            },
        };
        let (target, p2) = self.chain.parse_expr(s, p1, pctx)?;
        let p3 = ws0(s, p2);
        let (values, p4) = self.chain.parse_expr(s, p3, pctx)?;
        Ok((
            Dml {
                op: DmlOp::Insert(Insert { target: Box::new(target), values: Box::new(values) }),
                from_clause: None,
                where_clause: None,
            },
            p4,
        ))
    }
}

impl<'p> DmlStrategy for UpsertStrategy<'p> {
    fn parse(&self, s: &[char], pos: usize, pctx: &mut ParseContext) -> (r: Result<(Dml, usize), ParseError>) {
        UpsertStrategy::parse(self, s, pos, pctx)
    }
}

} // verus!
