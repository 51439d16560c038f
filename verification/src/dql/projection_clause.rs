//! The projection after `SELECT`.
//!
//! ```text
//! projection ::= [DISTINCT | ALL] ( '*'
//!                                 | VALUE expr
//!                                 | item (',' item)* )
//! item       ::= expr [[AS] alias]
//! ```
use crate::ast::{
    expr_ids, ids_within, project_item_ids, projection_ids, AstNode, Projection, ProjectionKind,
    ProjectExpr, ProjectItem, SetQuantifier,
};
use crate::dql::alias;
use crate::dql::from_clause::symbol;
use crate::expr::ExprChain;
use crate::parse_context::{ParseContext, ParseError};
use crate::text::{ch, char_at, kw_ws, skip_space, spec_kw_ws, ws0};
use vstd::prelude::*;

verus! {

/// The set quantifier at `p` and the position after it.
pub open spec fn spec_set_quantifier(s: Seq<char>, p: int) -> (Option<SetQuantifier>, int) {
    match spec_kw_ws(s, p, "DISTINCT"@) {
        Some(q) => (Some(SetQuantifier::Distinct), q),
        None => match spec_kw_ws(s, p, "ALL"@) {
            Some(q) => (Some(SetQuantifier::All), q),
            None => (None, p),
        },
    }
}

/// Parser of the projection.
pub struct ProjectionClause<'p> {
    chain: &'p ExprChain,
}

impl<'p> ProjectionClause<'p> {
    pub fn new(chain: &'p ExprChain) -> (r: Self) {
        ProjectionClause { chain }
    }

    /// Parse the projection at `pos`: `*`, `VALUE e`, or a list of
    /// items with optional aliases, after an optional `DISTINCT` or `ALL`.
    pub fn parse(&self, s: &[char], pos: usize, pctx: &mut ParseContext) -> (r: Result<
        (Projection, usize),
        ParseError,
    >)
        requires
            pos <= s@.len(),
        ensures
            old(pctx).next() <= final(pctx).next(),
            r matches Ok((pr, p)) ==> {
                let (setq, q) = spec_set_quantifier(s@, skip_space(s@, pos as int));
                &&& pos < p <= s@.len()
                &&& ids_within(projection_ids(pr), old(pctx).next(), final(pctx).next())
                &&& pr.setq == setq
                &&& (pr.kind is ProjectValue <==> spec_kw_ws(s@, q, "VALUE"@) is Some)
                &&& (pr.kind is ProjectStar <==> (spec_kw_ws(s@, q, "VALUE"@) is None && char_at(s@, q, '*')))
            },
            ({
                let (setq, q) = spec_set_quantifier(s@, skip_space(s@, pos as int));
                spec_kw_ws(s@, q, "VALUE"@) is None && char_at(s@, q, '*') ==> (r matches Ok((pr, p)) && p == q + 1
                    && pr.kind is ProjectStar && pr.setq == setq && final(pctx).next() == old(pctx).next())
            }),
    {
        let ghost lo = pctx.next();
        let n = s.len();
        let p0 = ws0(s, pos);
        let (setq, p1) = match kw_ws(s, p0, "DISTINCT") {
            Some(q) => (Some(SetQuantifier::Distinct), q),
            None => match kw_ws(s, p0, "ALL") {
                Some(q) => (Some(SetQuantifier::All), q),
                None => (None, p0),
            },
        };
        if let Some(q) = kw_ws(s, p1, "VALUE") {
            let (e, q2) = self.chain.parse_expr(s, q, pctx)?;
            return Ok((Projection { kind: ProjectionKind::ProjectValue(Box::new(e)), setq }, q2));
        }
        if let Some(q) = ch(s, p1, '*') {
            return Ok((Projection { kind: ProjectionKind::ProjectStar, setq }, q));
        }
        let mut items: Vec<AstNode<ProjectItem>> = Vec::new();
        let mut p = p1;
        loop
            invariant
                ({
                    let (sq, qq) = spec_set_quantifier(s@, skip_space(s@, pos as int));
                    !(spec_kw_ws(s@, qq, "VALUE"@) is None && char_at(s@, qq, '*'))
                }),
                n == s@.len(),
                pos <= p1 <= p <= s@.len(),
                items@.len() > 0 ==> p1 < p,
                lo == old(pctx).next(),
                lo <= pctx.next(),
                ids_within(project_item_ids(items@), lo, pctx.next()),
            ensures
                p1 < p <= s@.len(),
                lo <= pctx.next(),
                ids_within(project_item_ids(items@), lo, pctx.next()),
            decreases s@.len() - p,
        {
            let q = ws0(s, p);
            let (expr, q1) = self.chain.parse_expr(s, q, pctx)?;
            let q2 = ws0(s, q1);
            let (as_alias, q3) = match alias(s, q2) {
                Some((name, e)) => (Some(symbol(name)), e),
                None => (None, q1),
            };
            let ghost e_ids = expr_ids(expr);
            let item = pctx.node(ProjectItem::ProjectExpr(ProjectExpr { expr: Box::new(expr), as_alias }))?;
            let ghost before = items@;
            items.push(item);
            proof {
                assert(items@.drop_last() =~= before);
            }
            let q4 = ws0(s, q3);
            match ch(s, q4, ',') {
                Some(q5) => {
                    p = q5;
                },
                None => {
                    p = q3;
                    break ;
                },
            }
        }
        Ok((Projection { kind: ProjectionKind::ProjectList(items), setq }, p))
    }
}

} // verus!
