//! Join parsers: each join form has its own parser.
//!
//! A join parser receives the already parsed left source by value and the
//! position of its first token. When its form matches it returns the
//! join of the left source with the next one; when it does not, it
//! hands the left source back unchanged with
//! [`ParseError::Backtrack`](crate::parse_context::ParseError::Backtrack).
pub mod comma_join;
pub mod cross_join;
pub mod full_join;
pub mod inner_join;
pub mod left_join;
pub mod right_join;

use crate::ast::{expr_ids, from_ids, AstNode, FromSource, Join, JoinKind, JoinSpec};
use crate::dql::from_clause::{parse_source, source_is, source_shape};
use crate::expr::pratt::{spec_bp, tree_is, tree_size, Tree};
use crate::expr::{ids_within_or, ExprChain};
use crate::parse_context::{ParseContext, ParseError};
use crate::text::{kw_ws, skip_space, spec_kw_ws, ws0};
use vstd::prelude::*;

verus! {

/// Outcome of a join parser given the left source `left`: on success a
/// join of `kind` whose left side is `left` and whose other nodes are
/// new; on a mismatch `left` handed back; `None` in its place only when
/// node ids ran out.
pub open spec fn extends_source(
    s: Seq<char>,
    pos: int,
    left: FromSource,
    kind: JoinKind,
    lo: nat,
    hi: nat,
    r: Result<(FromSource, usize), (Option<FromSource>, ParseError)>,
) -> bool {
    match r {
        Ok((f, p)) => {
            &&& pos < p <= s.len()
            &&& ids_within_or(from_ids(f), from_ids(left), lo, hi)
            &&& f matches FromSource::Join(j)
            &&& j.node.kind == kind
            &&& *j.node.left == left
        },
        Err((Some(l), _)) => l == left,
        Err((None, e)) => e == ParseError::NodeIdsExhausted,
    }
}

/// A join form: given the left source, parses its join at `pos`, or
/// hands the left source back.
pub trait JoinParser {
    /// The kind of join this form builds.
    spec fn join_kind(&self) -> JoinKind;

    fn parse(
        &self,
        s: &[char],
        pos: usize,
        pctx: &mut ParseContext,
        left: FromSource,
    ) -> (r: Result<(FromSource, usize), (Option<FromSource>, ParseError)>)
        requires
            pos <= s@.len(),
        ensures
            old(pctx).next() <= final(pctx).next(),
            extends_source(s@, pos as int, left, self.join_kind(), old(pctx).next(), final(pctx).next(), r),
    ;
}

/// After a right source that ends at `p1`: where joins take a condition
/// (`with_on`), an optional `ON` and an expression in the operator
/// grammar; the condition's shape, if any, and where the join ends.
pub open spec fn join_cond(s: Seq<char>, p1: int, with_on: bool) -> Option<(Option<Tree>, int)> {
    if with_on {
        match spec_kw_ws(s, skip_space(s, p1), "ON"@) {
            Some(q) => match spec_bp(s, q, 0) {
                Some((t, e)) => Some((Some(t), e)),
                None => None,
            },
            None => Some((None, skip_space(s, p1))),
        }
    } else {
        Some((None, p1))
    }
}

/// The join's condition has the shape `c`, or is absent where `c` is.
pub open spec fn cond_is(s: Seq<char>, c: Option<Tree>, pred: Option<AstNode<JoinSpec>>) -> bool {
    match c {
        Some(t) => pred matches Some(sp) && (sp.node matches JoinSpec::On(x) && tree_is(s, t, *x)),
        None => pred is None,
    }
}

/// How many nodes a join builds over a right source of shape `t` and a
/// condition of shape `c`: the source's expression and its `FROM` node,
/// the condition and its node, and the join's own node.
pub open spec fn join_size(t: Tree, c: Option<Tree>) -> nat {
    tree_size(t) + 1 + match c {
        Some(x) => tree_size(x) + 1,
        None => 0,
    } + 1
}

/// Where the right source at `p` and the condition after it follow the
/// grammar (see [`source_shape`] and [`join_cond`]) and the node ids last
/// for them (`lo` is the counter before), the join of `kind` is built:
/// `left`, the right source, the condition, ending where they end, with
/// [`join_size`] ids taken.
pub open spec fn join_built(
    s: Seq<char>,
    p: int,
    with_on: bool,
    left: FromSource,
    kind: JoinKind,
    lo: nat,
    hi: nat,
    r: Result<(FromSource, usize), (Option<FromSource>, ParseError)>,
) -> bool {
    match source_shape(s, p) {
        Some((t, a1, a2, p1)) => match join_cond(s, p1, with_on) {
            Some((c, e)) => lo + join_size(t, c) < u32::MAX ==> (r matches Ok((FromSource::Join(j), q)) && q == e
                && hi == lo + join_size(t, c) && j.node.kind
                == kind && *j.node.left == left && source_is(s, *j.node.right, t, a1, a2) && cond_is(
                s,
                c,
                j.node.predicate,
            )),
            None => true,
        },
        None => true,
    }
}

/// The position after `k` and blanks at `p`, or `p` where `k` is absent.
pub open spec fn opt_kw(s: Seq<char>, p: int, k: Seq<char>) -> int {
    match spec_kw_ws(s, p, k) {
        Some(q) => q,
        None => p,
    }
}

/// `first [OUTER] JOIN` at `pos`: the position after the keywords.
pub open spec fn outer_join_start(s: Seq<char>, pos: int, first: Seq<char>) -> Option<int> {
    match spec_kw_ws(s, pos, first) {
        Some(p0) => spec_kw_ws(s, opt_kw(s, p0, "OUTER"@), "JOIN"@),
        None => None,
    }
}

/// The rest of a join from `pos`, just after its keywords: the right
/// source and, when `with_on`, an optional `ON` condition.
pub fn finish_join(
    chain: &ExprChain,
    s: &[char],
    pos: usize,
    pctx: &mut ParseContext,
    left: FromSource,
    kind: JoinKind,
    with_on: bool,
) -> (r: Result<(FromSource, usize), (Option<FromSource>, ParseError)>)
    requires
        pos <= s@.len(),
    ensures
        old(pctx).next() <= final(pctx).next(),
        extends_source(s@, pos as int, left, kind, old(pctx).next(), final(pctx).next(), r),
        r matches Ok((FromSource::Join(j), p)) ==> (j.node.predicate is Some ==> with_on),
        join_built(s@, pos as int, with_on, left, kind, old(pctx).next() as nat, final(pctx).next() as nat, r),
{
    let ghost lo = pctx.next();
    let ghost left_ids = from_ids(left);
    let (right, p1) = match parse_source(chain, s, pos, pctx) {
        Ok(r) => r,
        Err(e) => {
            return Err((Some(left), e));
        },
    };
    let p2 = ws0(s, p1);
    let (predicate, p3) = if with_on {
        match kw_ws(s, p2, "ON") {
            Some(q) => {
                let (cond, q2) = match chain.parse_expr(s, q, pctx) {
                    Ok(r) => r,
                    Err(e) => {
                        return Err((Some(left), e));
                    },
                };
                let ghost c_ids = expr_ids(cond);
                let spec = match pctx.node(JoinSpec::On(Box::new(cond))) {
                    Ok(n) => n,
                    Err(e) => {
                        return Err((Some(left), e));
                    },
                };
                (Some(spec), q2)
            },
            None => (None, p2),
        }
    } else {
        (None, p1)
    };
    let ghost right_ids = from_ids(right);
    match pctx.node(Join { kind, left: Box::new(left), right: Box::new(right), predicate }) {
        Ok(n) => {
            let f = FromSource::Join(n);
            proof {
                assert(ids_within_or(from_ids(f), left_ids, lo, pctx.next()));
            }
            Ok((f, p3))
        },
        Err(e) => Err((None, e)),
    }
}

} // verus!
