//! `UPDATE source SET target = value [WHERE expr]`.
//!
//! The target of the assignment is a name or a dotted path, read as such
//! rather than as an expression, so that its `=` is not taken for a
//! comparison: `a.b.c` is the variable `a` with one projection step per
//! dotted part.
use crate::ast::{
    expr_ids, ids_within, step_ids, Assignment, CaseSensitivity, Dml, DmlOp, Expr, FromClause, Path, PathExpr,
    PathStep, ScopeQualifier, SetAssignment, SymbolPrimitive, VarRef,
};
use crate::dml::{dml_parsed, DmlStrategy};
use crate::dql::from_clause::{parse_source, source_is, source_shape};
use crate::expr::pratt::{opt_size, opt_tree_is, spec_bp, tree_is, tree_size, Tree};
use crate::expr::{expr_parsed, ExprChain};
use crate::identifier::{dotted_path, identifier, lemma_identifier_advances, spec_dotted_rest, spec_identifier};
use crate::parse_context::{ParseContext, ParseError};
use crate::text::{ch, char_at, kw_ws, skip_space, spec_kw_ws, ws0};
use vstd::prelude::*;

verus! {

/// The `.name` parts that follow at `p`: their names and the position
/// after the last.
pub open spec fn spec_rest_parts(s: Seq<char>, p: int) -> Option<(Seq<Seq<char>>, int)>
    decreases s.len() - p,
{
    if 0 <= p && char_at(s, p, '.') {
        match spec_identifier(s, p + 1) {
            None => None,
            Some((v, q)) => {
                proof {
                    lemma_identifier_advances(s, p + 1);
                }
                match spec_rest_parts(s, q) {
                    None => None,
                    Some((t, r)) => Some((seq![v] + t, r)),
                }
            },
        }
    } else {
        Some((Seq::empty(), p))
    }
}

/// An assignment target at `pos`: a name, then `.name` parts; the first
/// name, the names of the parts, and the position after them.
pub open spec fn spec_target_parts(s: Seq<char>, pos: int) -> Option<(Seq<char>, Seq<Seq<char>>, int)> {
    match spec_identifier(s, pos) {
        None => None,
        Some((v, q)) => match spec_rest_parts(s, q) {
            None => None,
            Some((t, r)) => Some((v, t, r)),
        },
    }
}

/// The parts parse exactly where the dotted name does.
proof fn lemma_rest_parts_agree(s: Seq<char>, p: int)
    ensures
        (spec_rest_parts(s, p) is None) == (spec_dotted_rest(s, p) is None),
    decreases s.len() - p,
{
    if 0 <= p && char_at(s, p, '.') {
        lemma_identifier_advances(s, p + 1);
        if let Some((v, q)) = spec_identifier(s, p + 1) {
            lemma_rest_parts_agree(s, q);
        }
    }
}

/// `e` is the unqualified, case-insensitive variable `name`.
pub open spec fn is_var(e: Expr, name: Seq<char>) -> bool {
    e matches Expr::VarRef(v) && v.node.name.value@ == name && v.node.name.case
        == CaseSensitivity::CaseInsensitive && v.node.qualifier == ScopeQualifier::Unqualified
}

/// Step `st` projects the field `name`.
pub open spec fn is_field_step(st: PathStep, name: Seq<char>) -> bool {
    match st {
        PathStep::PathProject(pe) => is_var(*pe.index, name),
        _ => false,
    }
}

/// `e` is the assignment target spelled by `first` and the parts `rest`:
/// the variable `first` when there are no parts, else the path from it
/// with one projection step per part, in order.
pub open spec fn is_target(e: Expr, first: Seq<char>, rest: Seq<Seq<char>>) -> bool {
    if rest.len() == 0 {
        is_var(e, first)
    } else {
        match e {
            Expr::Path(pn) => is_var(*pn.node.root, first) && pn.node.steps@.len() == rest.len() && forall|i: int|
                0 <= i < rest.len() ==> #[trigger] is_field_step(pn.node.steps@[i], rest[i]),
            _ => false,
        }
    }
}

/// How many nodes an assignment target with the dotted parts `rest`
/// takes: its variable alone, or the root variable, one per part and the
/// path node.
pub open spec fn target_size(rest: Seq<Seq<char>>) -> nat {
    if rest.len() == 0 {
        1
    } else {
        rest.len() + 2
    }
}

/// A case-insensitive, unqualified variable named `value`.
fn var(pctx: &mut ParseContext, value: String) -> (r: Result<Expr, ParseError>)
    ensures
        old(pctx).next() < u32::MAX ==> (r matches Ok(e) && is_var(e, value@) && expr_ids(e) == set![old(pctx).next()]
            && final(pctx).next() == old(pctx).next() + 1),
        old(pctx).next() >= u32::MAX ==> r is Err && final(pctx).next() == old(pctx).next(),
{
    let node = pctx.node(
        VarRef {
            name: SymbolPrimitive { value, case: CaseSensitivity::CaseInsensitive },
            qualifier: ScopeQualifier::Unqualified,
        },
    )?;
    let e = Expr::VarRef(node);
    proof {
        assert(expr_ids(e) =~= set![old(pctx).next()]);
    }
    Ok(e)
}

/// The assignment target at `pos`: a name, or a path with one
/// projection step per dotted part.
pub fn parse_assignment_target(s: &[char], pos: usize, pctx: &mut ParseContext) -> (r: Result<
    (Expr, usize),
    ParseError,
>)
    requires
        pos <= s@.len(),
    ensures
        old(pctx).next() <= final(pctx).next(),
        expr_parsed(s@, pos as int, old(pctx).next(), final(pctx).next(), r),
        spec_target_parts(s@, pos as int) is None ==> r == Err::<(Expr, usize), ParseError>(
            ParseError::Backtrack),
        r matches Ok((e, p)) ==> spec_target_parts(s@, pos as int) matches Some((f, rest, q)) && p == q
            && is_target(e, f, rest) && final(pctx).next() == old(pctx).next() + target_size(rest),
        spec_target_parts(s@, pos as int) matches Some((f, rest, q)) && old(pctx).next() + target_size(rest)
            < u32::MAX ==> r is Ok,
{
    let ghost lo = pctx.next();
    proof {
        lemma_identifier_advances(s@, pos as int);
        if let Some((v, q)) = spec_identifier(s@, pos as int) {
            lemma_rest_parts_agree(s@, q);
        }
    }
    let _ = dotted_path(s, pos)?;
    let (first, mut p) = identifier(s, pos)?;
    let ghost first_name = first@;
    let root = var(pctx, first)?;
    let ghost mid = pctx.next();
    let mut steps: Vec<PathStep> = Vec::new();
    let ghost mut names: Seq<Seq<char>> = Seq::empty();
    proof {
        assert(steps@ =~= Seq::<PathStep>::empty());
        assert(step_ids(steps@) =~= Set::<nat>::empty());
    }
    while p < s.len() && s[p] == '.'
        invariant
            pos < p <= s@.len(),
            spec_target_parts(s@, pos as int) is Some,
            lo < mid <= pctx.next(),
            lo == old(pctx).next(),
            mid == lo + 1,
            pctx.next() == mid + names.len(),
            is_var(root, first_name),
            expr_ids(root) == set![lo],
            ids_within(step_ids(steps@), mid, pctx.next()),
            steps@.len() == names.len(),
            forall|i: int| 0 <= i < names.len() ==> #[trigger] is_field_step(steps@[i], names[i]),
            spec_target_parts(s@, pos as int) == (match spec_rest_parts(s@, p as int) {
                None => None,
                Some((t, r)) => Some((first_name, names + t, r)),
            }),
        decreases s@.len() - p,
    {
        proof {
            lemma_identifier_advances(s@, p + 1);
        }
        let (name, q) = identifier(s, p + 1)?;
        let ghost nm = name@;
        let v = var(pctx, name)?;
        let ghost before = steps@;
        steps.push(PathStep::PathProject(PathExpr { index: Box::new(v) }));
        proof {
            assert(steps@.drop_last() =~= before);
            assert(step_ids(steps@) =~= step_ids(before).union(expr_ids(v)));
            let old_names = names;
            names = names.push(nm);
            assert forall|i: int| 0 <= i < names.len() implies #[trigger] is_field_step(steps@[i], names[i]) by {
                if i < old_names.len() {
                    assert(steps@[i] == before[i]);
                }
            }
            match spec_rest_parts(s@, q as int) {
                None => {},
                Some((t, r)) => {
                    assert(old_names + (seq![nm] + t) =~= names + t);
                },
            }
        }
        p = q;
    }
    proof {
        assert(spec_rest_parts(s@, p as int) == Some((Seq::<Seq<char>>::empty(), p as int)));
        assert(names + Seq::<Seq<char>>::empty() =~= names);
    }
    if steps.len() == 0 {
        return Ok((root, p));
    }
    let node = pctx.node(Path { root: Box::new(root), steps })?;
    let e = Expr::Path(node);
    proof {
        assert(ids_within(expr_ids(e), lo, pctx.next()));
    }
    Ok((e, p))
}

/// Strategy for `UPDATE`.
pub struct UpdateStrategy<'p> {
    chain: &'p ExprChain,
}

/// The parts of an `UPDATE` statement: the source (its shape and alias
/// names), the target's dotted names, the value's shape, the condition's
/// shape if there is one, and where the statement ends.
pub struct UpdateShape {
    pub source: Tree,
    pub as_name: Option<Seq<char>>,
    pub at_name: Option<Seq<char>>,
    pub first: Seq<char>,
    pub rest: Seq<Seq<char>>,
    pub value: Tree,
    pub cond: Option<Tree>,
    pub end: int,
}

/// An optional `WHERE` condition after blanks at `p`, in the operator
/// grammar: its shape, and where the statement ends.
pub open spec fn where_shape(s: Seq<char>, p: int) -> Option<(Option<Tree>, int)> {
    match spec_kw_ws(s, skip_space(s, p), "WHERE"@) {
        Some(q) => match spec_bp(s, q, 0) {
            Some((t, e)) => Some((Some(t), e)),
            None => None,
        },
        None => Some((None, skip_space(s, p))),
    }
}

/// `UPDATE source SET target = value [WHERE condition]` after blanks at
/// `pos`, source, value and condition in the grammar of
/// [`source_shape`] and [`spec_bp`], the target as [`spec_target_parts`].
pub open spec fn update_shape(s: Seq<char>, pos: int) -> Option<UpdateShape> {
    match spec_kw_ws(s, skip_space(s, pos), "UPDATE"@) {
        Some(p1) => match source_shape(s, p1) {
            Some((st, a1, a2, p2)) => match spec_kw_ws(s, skip_space(s, p2), "SET"@) {
                Some(p4) => match spec_target_parts(s, p4) {
                    Some((f, rest, p5)) => if char_at(s, skip_space(s, p5), '=') {
                        match spec_bp(s, skip_space(s, skip_space(s, p5) + 1), 0) {
                            Some((vt, p8)) => match where_shape(s, p8) {
                                Some((c, e)) => Some(
                                    UpdateShape {
                                        source: st,
                                        as_name: a1,
                                        at_name: a2,
                                        first: f,
                                        rest,
                                        value: vt,
                                        cond: c,
                                        end: e,
                                    },
                                ),
                                None => None,
                            },
                            None => None,
                        }
                    } else {
                        None
                    },
                    None => None,
                },
                None => None,
            },
            None => None,
        },
        None => None,
    }
}

/// How many nodes an `UPDATE` of shape `u` takes: the source's
/// expression and its `FROM` node, the target, the value and the
/// condition.
pub open spec fn update_size(u: UpdateShape) -> nat {
    tree_size(u.source) + 1 + target_size(u.rest) + tree_size(u.value) + opt_size(u.cond)
}

impl<'p> UpdateStrategy<'p> {
    pub fn new(chain: &'p ExprChain) -> (r: Self) {
        UpdateStrategy { chain }
    }

    /// Parse `UPDATE source SET target = value [WHERE condition]` at `pos`.
    pub fn parse(&self, s: &[char], pos: usize, pctx: &mut ParseContext) -> (r: Result<
        (Dml, usize),
        ParseError,
    >)
        requires
            pos <= s@.len(),
        ensures
            old(pctx).next() <= final(pctx).next(),
            dml_parsed(s@, pos as int, old(pctx).next(), final(pctx).next(), r),
            spec_kw_ws(s@, skip_space(s@, pos as int), "UPDATE"@) is None ==> r == Err::<
                (Dml, usize),
                ParseError,
            >(ParseError::Backtrack) && final(pctx).next() == old(pctx).next(),
            r matches Ok((d, p)) ==> d.op is Update && d.from_clause is Some,
            match update_shape(s@, pos as int) {
                Some(u) => old(pctx).next() + update_size(u) < u32::MAX ==> (r matches Ok((d, p)) && p == u.end && (
                d.from_clause matches Some(fc) && source_is(s@, fc.source, u.source, u.as_name, u.at_name))
                    && (d.op matches DmlOp::Update(sa) && is_target(*sa.assignment.target, u.first, u.rest)
                    && tree_is(s@, u.value, *sa.assignment.value)) && opt_tree_is(s@, u.cond, d.where_clause)),
                None => true,
            },
    {
        let ghost lo = pctx.next();
        let p0 = ws0(s, pos);
        let p1 = match kw_ws(s, p0, "UPDATE") {
            Some(q) => q,
            None => {
                return Err(ParseError::Backtrack);
            },
        };
        let (source, p2) = parse_source(self.chain, s, p1, pctx)?;
        let p3 = ws0(s, p2);
        let p4 = match kw_ws(s, p3, "SET") {
            Some(q) => q,
            None => {
                return Err(ParseError::Backtrack);
            },
        };
        let (target, p5) = parse_assignment_target(s, p4, pctx)?;
        let p6 = ws0(s, p5);
        let p7 = match ch(s, p6, '=') {
            Some(q) => ws0(s, q),
            None => {
                return Err(ParseError::Backtrack);
            },
        };
        let (value, p8) = self.chain.parse_expr(s, p7, pctx)?;
        let p9 = ws0(s, p8);
        let (where_clause, p10) = match kw_ws(s, p9, "WHERE") {
            Some(q) => {
                let (e, q2) = self.chain.parse_expr(s, q, pctx)?;
                (Some(Box::new(e)), q2)
            },
            None => (None, p9),
        };
        Ok((
            Dml {
                op: DmlOp::Update(
                    SetAssignment {
                        assignment: Assignment { target: Box::new(target), value: Box::new(value) },
                    },
                ),
                from_clause: Some(FromClause { source }),
                where_clause,
            },
            p10,
        ))
    }
}

impl<'p> DmlStrategy for UpdateStrategy<'p> {
    fn parse(&self, s: &[char], pos: usize, pctx: &mut ParseContext) -> (r: Result<(Dml, usize), ParseError>) {
        UpdateStrategy::parse(self, s, pos, pctx)
    }
}

} // verus!
