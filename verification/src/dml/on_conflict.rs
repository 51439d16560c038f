//! `ON CONFLICT` clause of `INSERT`.
//!
//! ```text
//! on_conflict     ::= ON CONFLICT [conflict_target] conflict_action
//! conflict_target ::= '(' column (',' column)* ')'
//!                   | ON CONSTRAINT constraint_name
//! conflict_action ::= DO NOTHING
//!                   | DO UPDATE EXCLUDED [WHERE expr]
//!                   | DO UPDATE SET set_clause (',' set_clause)* [WHERE expr]
//!                   | DO REPLACE EXCLUDED [WHERE expr]
//!                   | DO REPLACE VALUE expr [WHERE expr]
//! set_clause      ::= column '=' extended_expr
//! extended_expr   ::= function_call | expr
//! function_call   ::= identifier '(' [expr (',' expr)*] ')'
//! ```
use crate::ast::{
    action_ids, boxed_ids, expr_ids, extended_ids, ids_within, on_conflict_ids, opt_expr_ids,
    set_clause_ids, ConflictAction, ConflictTarget, Expr, ExtendedExpr, Lit, MergeFunction,
    OnConflict, SetClause,
};
use crate::dml::update_strategy::where_shape;
use crate::expr::pratt::{
    PrattParser, Tree, items_size, lemma_items_size_concat, lemma_items_size_push, opt_size, opt_tree_is, spec_bp,
    tree_is, tree_parsed, tree_size,
};
use crate::expr::{atom_is, lemma_stop_fixed, lone_atom_end};
use crate::identifier::{identifier, lemma_identifier_advances, lemma_identifier_start, spec_identifier};
use crate::parse_context::{ParseContext, ParseError};
use crate::text::{
    ch, char_at, kw, kw_at, kw_ws, kw_ws0, lemma_skip_space_idem, skip_space, spec_kw_ws, spec_kw_ws0, ws0,
};
use vstd::prelude::*;

verus! {

/// `ON CONFLICT` and optional blanks at `p`: the position after them.
pub open spec fn spec_on_conflict_start(s: Seq<char>, p: int) -> Option<int> {
    match spec_kw_ws(s, skip_space(s, p), "ON"@) {
        Some(q) => spec_kw_ws0(s, q, "CONFLICT"@),
        None => None,
    }
}

/// After a column that ends at `q1`: `=` and an atom standing alone,
/// not followed by `,`. The position of the stop after the atom.
pub open spec fn plain_set_value(s: Seq<char>, q1: int) -> Option<int> {
    let q2 = skip_space(s, q1);
    if char_at(s, q2, '=') {
        match lone_atom_end(s, skip_space(s, q2 + 1)) {
            Some(e) => if !char_at(s, e, ',') {
                Some(e)
            } else {
                None
            },
            None => None,
        }
    } else {
        None
    }
}

/// The shape of a conflict target: the column names, or the constraint's
/// name.
pub enum TargetShape {
    Columns(Seq<Seq<char>>),
    Constraint(Seq<char>),
}

/// Comma-separated column names from `p` on, the last followed by `)`:
/// the names and the position after `)`.
pub open spec fn spec_column_list(s: Seq<char>, p: int) -> Option<(Seq<Seq<char>>, int)>
    decreases s.len() - p,
{
    let q1 = skip_space(s, p);
    match spec_identifier(s, q1) {
        Some((c, q2)) => {
            let q3 = skip_space(s, q2);
            if p < q3 && char_at(s, q3, ',') {
                match spec_column_list(s, q3 + 1) {
                    Some((cs, f)) => Some((seq![c] + cs, f)),
                    None => None,
                }
            } else if char_at(s, q3, ')') {
                Some((seq![c], q3 + 1))
            } else {
                None
            }
        },
        None => None,
    }
}

/// The names of the columns from `p` on, where they are well formed.
pub open spec fn columns_rest(s: Seq<char>, p: int) -> Seq<Seq<char>> {
    match spec_column_list(s, p) {
        Some((cs, f)) => cs,
        None => Seq::empty(),
    }
}

/// Where the columns from `p` on end, where they are well formed.
pub open spec fn columns_end(s: Seq<char>, p: int) -> int {
    match spec_column_list(s, p) {
        Some((cs, f)) => f,
        None => p,
    }
}

/// The optional conflict target at `p`: `(` and columns, `ON CONSTRAINT`
/// and a name, or none (nothing read); and where it ends.
pub open spec fn target_shape(s: Seq<char>, p: int) -> Option<(Option<TargetShape>, int)> {
    if char_at(s, p, '(') {
        match spec_column_list(s, p + 1) {
            Some((cs, e)) => Some((Some(TargetShape::Columns(cs)), e)),
            None => None,
        }
    } else {
        match spec_kw_ws(s, p, "ON"@) {
            Some(q) => match spec_kw_ws(s, q, "CONSTRAINT"@) {
                Some(q2) => match spec_identifier(s, q2) {
                    Some((n, e)) => Some((Some(TargetShape::Constraint(n)), e)),
                    None => None,
                },
                None => Some((None, p)),
            },
            None => Some((None, p)),
        }
    }
}

/// The target `ct` has the shape `tg`.
pub open spec fn target_is(tg: Option<TargetShape>, ct: Option<ConflictTarget>) -> bool {
    match tg {
        None => ct is None,
        Some(TargetShape::Columns(cs)) => ct matches Some(ConflictTarget::Columns(v)) && v@.len() == cs.len() && (
        forall|i: int| 0 <= i < cs.len() ==> #[trigger] v@[i]@ == cs[i]),
        Some(TargetShape::Constraint(n)) => ct matches Some(ConflictTarget::Constraint(x)) && x@ == n,
    }
}

/// A merge function call stands at `p`: a name, then `(`.
pub open spec fn call_at(s: Seq<char>, p: int) -> bool {
    spec_identifier(s, p) matches Some((nm, q)) && char_at(s, skip_space(s, q), '(')
}

/// Comma-separated `column = value` pairs from `p` on, each value in the
/// operator grammar and not a merge function call: the columns with their
/// values' shapes, and where the last value ends.
pub open spec fn spec_set_list(s: Seq<char>, p: int) -> Option<(Seq<(Seq<char>, Tree)>, int)>
    decreases s.len() - p,
{
    let q = skip_space(s, p);
    match spec_identifier(s, q) {
        Some((col, q1)) => {
            let q2 = skip_space(s, q1);
            let q3 = skip_space(s, q2 + 1);
            if char_at(s, q2, '=') && !call_at(s, q3) {
                match spec_bp(s, q3, 0) {
                    Some((t, q4)) => {
                        let q5 = skip_space(s, q4);
                        if p < q5 && char_at(s, q5, ',') {
                            match spec_set_list(s, q5 + 1) {
                                Some((cs, f)) => Some((seq![(col, t)] + cs, f)),
                                None => None,
                            }
                        } else {
                            Some((seq![(col, t)], q5))
                        }
                    },
                    None => None,
                }
            } else {
                None
            }
        },
        None => None,
    }
}

/// The pairs from `p` on, where they are well formed.
pub open spec fn sets_rest(s: Seq<char>, p: int) -> Seq<(Seq<char>, Tree)> {
    match spec_set_list(s, p) {
        Some((cs, f)) => cs,
        None => Seq::empty(),
    }
}

/// Where the pairs from `p` on end, where they are well formed.
pub open spec fn sets_end(s: Seq<char>, p: int) -> int {
    match spec_set_list(s, p) {
        Some((cs, f)) => f,
        None => p,
    }
}

/// The set clauses `c` are the pairs `cs`, one for one.
pub open spec fn sets_are(s: Seq<char>, cs: Seq<(Seq<char>, Tree)>, c: Seq<SetClause>) -> bool {
    &&& c.len() == cs.len()
    &&& forall|i: int| 0 <= i < cs.len() ==> c[i].column@ == (#[trigger] cs[i]).0 && (c[i].expr matches ExtendedExpr::PartiQL(x)
        && tree_is(s, cs[i].1, *x))
}

/// The values' shapes of the pairs `cs`, in order.
pub open spec fn set_values(cs: Seq<(Seq<char>, Tree)>) -> Seq<Tree> {
    cs.map_values(|c: (Seq<char>, Tree)| c.1)
}

/// How many nodes the values of the pairs `cs` take.
pub open spec fn sets_size(cs: Seq<(Seq<char>, Tree)>) -> nat {
    items_size(set_values(cs))
}

/// The size of pairs read in two parts is the sum of the parts' sizes.
proof fn lemma_sets_size_concat(a: Seq<(Seq<char>, Tree)>, b: Seq<(Seq<char>, Tree)>)
    ensures
        sets_size(a + b) == sets_size(a) + sets_size(b),
{
    assert(set_values(a + b) =~= set_values(a) + set_values(b));
    lemma_items_size_concat(set_values(a), set_values(b));
}

/// One more pair adds the size of its value.
proof fn lemma_sets_size_push(cs: Seq<(Seq<char>, Tree)>, c: (Seq<char>, Tree))
    ensures
        sets_size(cs.push(c)) == sets_size(cs) + tree_size(c.1),
        sets_size(seq![c]) == tree_size(c.1),
{
    assert(set_values(cs.push(c)) =~= set_values(cs).push(c.1));
    lemma_items_size_push(set_values(cs), c.1);
    assert(set_values(seq![c]) =~= Seq::<Tree>::empty().push(c.1));
    lemma_items_size_push(Seq::<Tree>::empty(), c.1);
}

/// The shape of a conflict action, with the shapes of its expressions.
pub enum ActionShape {
    Nothing,
    UpdateExcluded(Option<Tree>),
    UpdateSet(Seq<(Seq<char>, Tree)>, Option<Tree>),
    ReplaceExcluded(Option<Tree>),
    ReplaceValue(Tree, Option<Tree>),
}

/// An action and an optional `WHERE` after it (`w` as [`where_shape`]
/// gives it).
pub open spec fn with_where(a: spec_fn(Option<Tree>) -> ActionShape, w: Option<(Option<Tree>, int)>) -> Option<(ActionShape, int)> {
    match w {
        Some((c, e)) => Some((a(c), e)),
        None => None,
    }
}

/// The conflict action at `p`: `DO` then `NOTHING`, `UPDATE EXCLUDED`,
/// `UPDATE SET` pairs, `REPLACE EXCLUDED` or `REPLACE VALUE` expression,
/// each but `NOTHING` with an optional `WHERE`; and where it ends.
pub open spec fn action_shape(s: Seq<char>, p: int) -> Option<(ActionShape, int)> {
    match spec_kw_ws(s, p, "DO"@) {
        Some(q) => if kw_at(s, q, "NOTHING"@) {
            Some((ActionShape::Nothing, q + 7))
        } else {
            match spec_kw_ws(s, q, "UPDATE"@) {
                Some(u) => if kw_at(s, u, "EXCLUDED"@) {
                    with_where(|c: Option<Tree>| ActionShape::UpdateExcluded(c), where_shape(s, u + 8))
                } else {
                    match spec_kw_ws(s, u, "SET"@) {
                        Some(e) => match spec_set_list(s, e) {
                            Some((cs, p1)) => with_where(|c: Option<Tree>| ActionShape::UpdateSet(cs, c), where_shape(s, p1)),
                            None => None,
                        },
                        None => None,
                    }
                },
                None => match spec_kw_ws(s, q, "REPLACE"@) {
                    Some(u) => if kw_at(s, u, "EXCLUDED"@) {
                        with_where(|c: Option<Tree>| ActionShape::ReplaceExcluded(c), where_shape(s, u + 8))
                    } else {
                        match spec_kw_ws(s, u, "VALUE"@) {
                            Some(e) => match spec_bp(s, e, 0) {
                                Some((v, p1)) => with_where(|c: Option<Tree>| ActionShape::ReplaceValue(v, c), where_shape(s, p1)),
                                None => None,
                            },
                            None => None,
                        }
                    },
                    None => None,
                },
            }
        },
        None => None,
    }
}

/// `DO` at `p` followed by none of `NOTHING`, `UPDATE` and `REPLACE`.
pub open spec fn action_unknown(s: Seq<char>, p: int) -> bool {
    spec_kw_ws(s, p, "DO"@) matches Some(q) && !kw_at(s, q, "NOTHING"@) && spec_kw_ws(s, q, "UPDATE"@) is None
        && spec_kw_ws(s, q, "REPLACE"@) is None
}

/// How many nodes an action of shape `a` takes: those of its
/// expressions.
pub open spec fn action_size(a: ActionShape) -> nat {
    match a {
        ActionShape::Nothing => 0,
        ActionShape::UpdateExcluded(w) => opt_size(w),
        ActionShape::UpdateSet(cs, w) => sets_size(cs) + opt_size(w),
        ActionShape::ReplaceExcluded(w) => opt_size(w),
        ActionShape::ReplaceValue(v, w) => tree_size(v) + opt_size(w),
    }
}

/// The action `ca` has the shape `a`.
pub open spec fn action_is(s: Seq<char>, a: ActionShape, ca: ConflictAction) -> bool {
    match a {
        ActionShape::Nothing => ca is DoNothing,
        ActionShape::UpdateExcluded(w) => ca matches ConflictAction::DoUpdateExcluded { where_clause } && opt_tree_is(
            s,
            w,
            where_clause,
        ),
        ActionShape::UpdateSet(cs, w) => ca matches ConflictAction::DoUpdateSet { set_clauses, where_clause }
            && sets_are(s, cs, set_clauses@) && opt_tree_is(s, w, where_clause),
        ActionShape::ReplaceExcluded(w) => ca matches ConflictAction::DoReplaceExcluded { where_clause }
            && opt_tree_is(s, w, where_clause),
        ActionShape::ReplaceValue(v, w) => ca matches ConflictAction::DoReplaceValue { value, where_clause }
            && tree_is(s, v, *value) && opt_tree_is(s, w, where_clause),
    }
}

/// `ON CONFLICT [target] action` after blanks at `pos`: the target's and
/// the action's shapes, and where the clause ends.
pub open spec fn on_conflict_shape(s: Seq<char>, pos: int) -> Option<(Option<TargetShape>, ActionShape, int)> {
    match spec_on_conflict_start(s, pos) {
        Some(p1) => match target_shape(s, p1) {
            Some((tg, p2)) => match action_shape(s, skip_space(s, p2)) {
                Some((a, e)) => Some((tg, a, e)),
                None => None,
            },
            None => None,
        },
        None => None,
    }
}

/// Parser of `ON CONFLICT`.
pub struct OnConflictParser<'p> {
    pratt: &'p PrattParser,
}

impl<'p> OnConflictParser<'p> {
    pub fn new(pratt: &'p PrattParser) -> (r: Self) {
        OnConflictParser { pratt }
    }

    /// Parse `ON CONFLICT [target] action` after optional blanks at `pos`.
    /// The clause's expression is a `NULL` literal.
    pub fn parse(&self, s: &[char], pos: usize, pctx: &mut ParseContext) -> (r: Result<
        (OnConflict, usize),
        ParseError,
    >)
        requires
            pos <= s@.len(),
        ensures
            old(pctx).next() <= final(pctx).next(),
            r matches Ok((o, p)) ==> {
                &&& pos < p <= s@.len()
                &&& ids_within(on_conflict_ids(o), old(pctx).next(), final(pctx).next())
                &&& *o.expr matches Expr::Lit(l)
                &&& l.node is Null
            },
            spec_on_conflict_start(s@, pos as int) is None ==> r == Err::<(OnConflict, usize), ParseError>(
                ParseError::Backtrack),
            match on_conflict_shape(s@, pos as int) {
                Some((tg, a, e)) => old(pctx).next() + action_size(a) + 1 < u32::MAX ==> (r matches Ok((o, p)) && p == e && target_is(
                    tg,
                    o.target,
                ) && action_is(s@, a, o.conflict_action)),
                None => true,
            },
            match spec_on_conflict_start(s@, pos as int) {
                Some(p1) => match target_shape(s@, p1) {
                    Some((tg, p2)) => action_unknown(s@, skip_space(s@, p2)) ==> r == Err::<(OnConflict, usize), ParseError>(
                        ParseError::Backtrack),
                    None => true,
                },
                None => true,
            },
    {
        let ghost lo = pctx.next();
        let p0 = ws0(s, pos);
        let p1 = match kw_ws(s, p0, "ON") {
            Some(q) => match kw_ws0(s, q, "CONFLICT") {
                Some(q2) => q2,
                None => {
                    return Err(ParseError::Backtrack);
                },
            },
            None => {
                return Err(ParseError::Backtrack);
            },
        };
        let (target, p2) = self.parse_conflict_target(s, p1)?;
        let p3 = ws0(s, p2);
        let (conflict_action, p4) = self.parse_conflict_action(s, p3, pctx)?;
        let ghost mid = pctx.next();
        let null = pctx.node(Lit::Null)?;
        let expr = Expr::Lit(null);
        proof {
            assert(expr_ids(expr) =~= set![mid]);
        }
        Ok((OnConflict { expr: Box::new(expr), target, conflict_action }, p4))
    }

    /// The optional conflict target at `pos`: a parenthesised column list
    /// or `ON CONSTRAINT name`; none, with nothing consumed, otherwise.
    fn parse_conflict_target(&self, s: &[char], pos: usize) -> (r: Result<
        (Option<ConflictTarget>, usize),
        ParseError,
    >)
        requires
            pos <= s@.len(),
        ensures
            r matches Ok((t, p)) ==> pos <= p <= s@.len(),
            r matches Ok((None, p)) ==> p == pos,
            r matches Ok((Some(ConflictTarget::Columns(c)), p)) ==> char_at(s@, pos as int, '(') && c.len()
                >= 1,
            r matches Ok((Some(ConflictTarget::Constraint(n)), p)) ==> spec_kw_ws(s@, pos as int, "ON"@)
                matches Some(q) && spec_kw_ws(s@, q, "CONSTRAINT"@) matches Some(q2) && spec_identifier(
                s@,
                q2,
            ) == Some((n@, p as int)),
            !char_at(s@, pos as int, '(') && spec_kw_ws(s@, pos as int, "ON"@) is None ==> r == Ok::<
                (Option<ConflictTarget>, usize),
                ParseError,
            >((None, pos)),
            match target_shape(s@, pos as int) {
                Some((tg, e)) => r matches Ok((ct, p)) && p == e && target_is(tg, ct),
                None => true,
            },
    {
        let n = s.len();
        if let Some(q) = ch(s, pos, '(') {
            let mut columns: Vec<String> = Vec::new();
            let mut p = q;
            let ghost good = spec_column_list(s@, q as int) is Some;
            let ghost mut done: Seq<Seq<char>> = Seq::empty();
            proof {
                assert(done + columns_rest(s@, p as int) =~= columns_rest(s@, p as int));
            }
            loop
                invariant_except_break
                    good ==> spec_column_list(s@, p as int) is Some && spec_column_list(s@, q as int) == Some(
                        (done + columns_rest(s@, p as int), columns_end(s@, p as int)),
                    ),
                invariant
                    good == (spec_column_list(s@, q as int) is Some),
                    columns@.len() == done.len(),
                    forall|i: int| 0 <= i < done.len() ==> #[trigger] columns@[i]@ == done[i],
                    n == s@.len(),
                    char_at(s@, pos as int, '('),
                    q == pos + 1,
                    pos < p <= s@.len(),
                ensures
                    pos < p <= s@.len(),
                    columns@.len() >= 1,
                    good ==> char_at(s@, p as int, ')') && p == skip_space(s@, p as int) && spec_column_list(
                        s@,
                        q as int,
                    ) == Some((done, p + 1)),
                decreases s@.len() - p,
            {
                let ghost p_old = p;
                let q1 = ws0(s, p);
                let (col, q2) = identifier(s, q1)?;
                let ghost c = col@;
                let ghost before = columns@;
                columns.push(col);
                proof {
                    assert forall|i: int| 0 <= i < done.push(c).len() implies #[trigger] columns@[i]@ == done.push(c)[i] by {
                        if i < done.len() {
                            assert(columns@[i] == before[i]);
                        }
                    }
                }
                let q3 = ws0(s, q2);
                proof {
                    crate::text::lemma_skip_space_idem(s@, q2 as int);
                    crate::text::lemma_skip_space_idem(s@, p_old as int);
                    if good {
                        assert(spec_identifier(s@, q1 as int) == Some((c, q2 as int)));
                        if char_at(s@, q3 as int, ',') {
                            assert(done + (seq![c] + columns_rest(s@, q3 + 1)) =~= done.push(c) + columns_rest(s@, q3 + 1));
                        } else {
                            assert(done + seq![c] =~= done.push(c));
                        }
                    }
                    done = done.push(c);
                }
                match ch(s, q3, ',') {
                    Some(q4) => {
                        p = q4;
                    },
                    None => {
                        p = q3;
                        break ;
                    },
                }
            }
            let q5 = ws0(s, p);
            proof {
                if good {
                    assert(target_shape(s@, pos as int) == Some((Some(TargetShape::Columns(done)), q5 + 1)));
                }
            }
            let q6 = match ch(s, q5, ')') {
                Some(q6) => q6,
                None => {
                    return Err(ParseError::Backtrack);
                },
            };
            return Ok((Some(ConflictTarget::Columns(columns)), q6));
        }
        if let Some(q) = kw_ws(s, pos, "ON") {
            if let Some(q2) = kw_ws(s, q, "CONSTRAINT") {
                let (name, q3) = identifier(s, q2)?;
                return Ok((Some(ConflictTarget::Constraint(name)), q3));
            }
        }
        Ok((None, pos))
    }

    /// The conflict action at `pos`: `DO` then `NOTHING`, `UPDATE ...` or
    /// `REPLACE ...`.
    #[verifier::rlimit(80)]
    fn parse_conflict_action(&self, s: &[char], pos: usize, pctx: &mut ParseContext) -> (r: Result<
        (ConflictAction, usize),
        ParseError,
    >)
        requires
            pos <= s@.len(),
        ensures
            old(pctx).next() <= final(pctx).next(),
            r matches Ok((a, p)) ==> {
                &&& pos < p <= s@.len()
                &&& ids_within(action_ids(a), old(pctx).next(), final(pctx).next())
                &&& spec_kw_ws(s@, pos as int, "DO"@) matches Some(q)
                &&& (a is DoNothing <==> kw_at(s@, q, "NOTHING"@))
                &&& ((a is DoUpdateExcluded || a is DoUpdateSet) ==> spec_kw_ws(s@, q, "UPDATE"@) is Some)
                &&& ((a is DoReplaceExcluded || a is DoReplaceValue) ==> spec_kw_ws(s@, q, "REPLACE"@) is Some)
            },
            spec_kw_ws(s@, pos as int, "DO"@) is None ==> r == Err::<(ConflictAction, usize), ParseError>(
                ParseError::Backtrack),
            action_unknown(s@, pos as int) ==> r == Err::<(ConflictAction, usize), ParseError>(ParseError::Backtrack),
            match action_shape(s@, pos as int) {
                Some((a, e)) => old(pctx).next() + action_size(a) < u32::MAX ==> (r matches Ok((ca, p)) && p == e
                    && action_is(s@, a, ca) && final(pctx).next() == old(pctx).next() + action_size(a)),
                None => true,
            },
    {
        proof {
            reveal_strlit("NOTHING");
            reveal_strlit("EXCLUDED");
        }
        let q = match kw_ws(s, pos, "DO") {
            Some(q) => q,
            None => {
                return Err(ParseError::Backtrack);
            },
        };
        if let Some(e) = kw(s, q, "NOTHING") {
            return Ok((ConflictAction::DoNothing, e));
        }
        if let Some(u) = kw_ws(s, q, "UPDATE") {
            if let Some(e) = kw(s, u, "EXCLUDED") {
                let (where_clause, p) = self.parse_optional_where(s, e, pctx)?;
                return Ok((ConflictAction::DoUpdateExcluded { where_clause }, p));
            }
            if let Some(e) = kw_ws(s, u, "SET") {
                let ghost lo = pctx.next();
                let (set_clauses, p1) = self.parse_set_clauses(s, e, pctx)?;
                let ghost mid = pctx.next();
                let (where_clause, p) = self.parse_optional_where(s, p1, pctx)?;
                proof {
                    crate::ast::lemma_ids_widen(set_clause_ids(set_clauses@), lo, mid, pctx.next());
                }
                return Ok((ConflictAction::DoUpdateSet { set_clauses, where_clause }, p));
            }
        }
        if let Some(u) = kw_ws(s, q, "REPLACE") {
            if let Some(e) = kw(s, u, "EXCLUDED") {
                let (where_clause, p) = self.parse_optional_where(s, e, pctx)?;
                return Ok((ConflictAction::DoReplaceExcluded { where_clause }, p));
            }
            if let Some(e) = kw_ws(s, u, "VALUE") {
                let ghost lo = pctx.next();
                let (value, p1) = self.pratt.parse_expr(s, e, pctx)?;
                let ghost mid = pctx.next();
                let (where_clause, p) = self.parse_optional_where(s, p1, pctx)?;
                proof {
                    crate::ast::lemma_ids_widen(expr_ids(value), lo, mid, pctx.next());
                }
                return Ok((ConflictAction::DoReplaceValue { value: Box::new(value), where_clause }, p));
            }
        }
        Err(ParseError::Backtrack)
    }

    /// An optional `WHERE` condition after optional blanks at `pos`.
    fn parse_optional_where(&self, s: &[char], pos: usize, pctx: &mut ParseContext) -> (r: Result<
        (Option<Box<Expr>>, usize),
        ParseError,
    >)
        requires
            pos <= s@.len(),
        ensures
            old(pctx).next() <= final(pctx).next(),
            r matches Ok((w, p)) ==> pos <= p <= s@.len() && ids_within(
                opt_expr_ids(w),
                old(pctx).next(),
                final(pctx).next(),
            ) && (w is Some <==> spec_kw_ws(s@, skip_space(s@, pos as int), "WHERE"@) is Some),
            match spec_kw_ws(s@, skip_space(s@, pos as int), "WHERE"@) {
                None => r matches Ok((w, p)) && w is None && p == skip_space(s@, pos as int) && final(pctx).next()
                    == old(pctx).next(),
                Some(c) => match lone_atom_end(s@, c) {
                    Some(e) => old(pctx).next() < u32::MAX ==> (r matches Ok((w, p)) && p == e && match w {
                        Some(x) => atom_is(s@, skip_space(s@, c), *x, old(pctx).next()),
                        None => false,
                    }),
                    None => true,
                },
            },
            match where_shape(s@, pos as int) {
                Some((c, e)) => old(pctx).next() + opt_size(c) < u32::MAX ==> (r matches Ok((w, p)) && p == e
                    && opt_tree_is(s@, c, w) && final(pctx).next() == old(pctx).next() + opt_size(c)),
                None => true,
            },
    {
        let p0 = ws0(s, pos);
        match kw_ws(s, p0, "WHERE") {
            Some(q) => {
                let (e, p) = self.pratt.parse_expr(s, q, pctx)?;
                Ok((Some(Box::new(e)), p))
            },
            None => Ok((None, p0)),
        }
    }

    /// `column = value` pairs separated by commas, from `pos`.
    fn parse_set_clauses(&self, s: &[char], pos: usize, pctx: &mut ParseContext) -> (r: Result<
        (Vec<SetClause>, usize),
        ParseError,
    >)
        requires
            pos <= s@.len(),
        ensures
            old(pctx).next() <= final(pctx).next(),
            r matches Ok((c, p)) ==> pos < p <= s@.len() && c.len() >= 1 && ids_within(
                set_clause_ids(c@),
                old(pctx).next(),
                final(pctx).next(),
            ),
            match spec_identifier(s@, skip_space(s@, pos as int)) {
                None => r == Err::<(Vec<SetClause>, usize), ParseError>(ParseError::Backtrack),
                Some((col, q1)) => match plain_set_value(s@, q1) {
                    Some(e) => old(pctx).next() < u32::MAX ==> (r matches Ok((c, p)) && p == e && c@.len() == 1
                        && c@[0].column@ == col),
                    None => true,
                },
            },
            match spec_set_list(s@, pos as int) {
                Some((cs, e)) => old(pctx).next() + sets_size(cs) < u32::MAX ==> (r matches Ok((c, p)) && p == e
                    && sets_are(s@, cs, c@) && final(pctx).next() == old(pctx).next() + sets_size(cs)),
                None => true,
            },
    {
        let ghost lo = pctx.next();
        let n = s.len();
        let mut clauses: Vec<SetClause> = Vec::new();
        let mut p = pos;
        let ghost q0 = skip_space(s@, pos as int);
        let ghost col: Seq<char> = match spec_identifier(s@, q0) {
            Some((c, q1)) => c,
            None => Seq::empty(),
        };
        let ghost e: int = match spec_identifier(s@, q0) {
            Some((c, q1)) => match plain_set_value(s@, q1) {
                Some(e) => e,
                None => 0,
            },
            None => 0,
        };
        let ghost lone = (spec_identifier(s@, q0) matches Some((c, q1)) && plain_set_value(s@, q1) == Some(e))
            && lo < u32::MAX;
        proof {
            lemma_skip_space_idem(s@, pos as int);
            if lone {
                lemma_stop_fixed(s@, e);
            }
        }
        let ghost good = spec_set_list(s@, pos as int) is Some;
        let ghost fits = good && lo + sets_size(sets_rest(s@, pos as int)) < u32::MAX;
        let ghost mut done: Seq<(Seq<char>, Tree)> = Seq::empty();
        proof {
            assert(done + sets_rest(s@, pos as int) =~= sets_rest(s@, pos as int));
        }
        loop
            invariant_except_break
                lone ==> p == pos && clauses@.len() == 0 && pctx.next() == lo,
                fits ==> spec_set_list(s@, p as int) is Some && spec_set_list(s@, pos as int)
                    == Some((done + sets_rest(s@, p as int), sets_end(s@, p as int))) && sets_are(s@, done, clauses@)
                    && pctx.next() == lo + sets_size(done),
            invariant
                good == (spec_set_list(s@, pos as int) is Some),
                fits == (good && lo + sets_size(sets_rest(s@, pos as int)) < u32::MAX),
                spec_identifier(s@, q0) is None ==> p == pos && clauses@.len() == 0,
                q0 == skip_space(s@, pos as int),
                skip_space(s@, q0) == q0,
                lone == ((spec_identifier(s@, q0) matches Some((c, q1)) && plain_set_value(s@, q1) == Some(e))
                    && lo < u32::MAX),
                lone ==> (skip_space(s@, e) == e && !char_at(s@, e, ',') && match spec_identifier(s@, q0) {
                    Some((c, q1)) => c == col,
                    None => false,
                }),
                match spec_identifier(s@, q0) {
                    Some((c, q1)) => plain_set_value(s@, q1) is Some ==> plain_set_value(s@, q1) == Some(e),
                    None => true,
                },
                n == s@.len(),
                pos <= p <= s@.len(),
                clauses@.len() > 0 ==> pos < p,
                lo == old(pctx).next(),
                lo <= pctx.next(),
                ids_within(set_clause_ids(clauses@), lo, pctx.next()),
            ensures
                pos < p <= s@.len(),
                clauses@.len() >= 1,
                lo <= pctx.next(),
                ids_within(set_clause_ids(clauses@), lo, pctx.next()),
                lone ==> p == e && clauses@.len() == 1 && clauses@[0].column@ == col,
                fits ==> spec_set_list(s@, pos as int) == Some((done, p as int)) && sets_are(
                    s@,
                    done,
                    clauses@,
                ) && pctx.next() == lo + sets_size(done),
            decreases s@.len() - p,
        {
            let ghost p_old = p;
            let q = ws0(s, p);
            let (column, q1) = identifier(s, q)?;
            let q2 = ws0(s, q1);
            let q3 = match ch(s, q2, '=') {
                Some(q3) => ws0(s, q3),
                None => {
                    return Err(ParseError::Backtrack);
                },
            };
            let ghost t = match spec_bp(s@, q3 as int, 0) {
                Some((t, e)) => t,
                None => Tree::Atom(0),
            };
            let ghost c = column@;
            proof {
                if fits {
                    assert(spec_identifier(s@, q as int) == Some((c, q1 as int)));
                    assert(!call_at(s@, q3 as int));
                    let rest = sets_rest(s@, p as int);
                    assert(rest.len() > 0 && rest[0] == (c, t));
                    assert(rest =~= seq![(c, t)] + rest.subrange(1, rest.len() as int));
                    lemma_sets_size_concat(seq![(c, t)], rest.subrange(1, rest.len() as int));
                    lemma_sets_size_push(Seq::empty(), (c, t));
                    lemma_sets_size_concat(done, rest);
                }
            }
            let (expr, q4) = self.parse_extended_expr(s, q3, pctx)?;
            let ghost before = clauses@;
            clauses.push(SetClause { column, expr });
            proof {
                assert(clauses@.drop_last() =~= before);
            }
            let q5 = ws0(s, q4);
            proof {
                if fits {
                    lemma_sets_size_push(done, (c, t));
                    assert forall|i: int| 0 <= i < done.push((c, t)).len() implies clauses@[i].column@ == (
                    #[trigger] done.push((c, t))[i]).0 && (clauses@[i].expr matches ExtendedExpr::PartiQL(x)
                        && tree_is(s@, done.push((c, t))[i].1, *x)) by {
                        if i < done.len() {
                            assert(clauses@[i] == before[i]);
                        }
                    }
                    if p_old < q5 && char_at(s@, q5 as int, ',') {
                        assert(done + (seq![(c, t)] + sets_rest(s@, q5 + 1)) =~= done.push((c, t)) + sets_rest(
                            s@,
                            q5 + 1,
                        ));
                    } else {
                        assert(done + seq![(c, t)] =~= done.push((c, t)));
                    }
                }
                done = done.push((c, t));
            }
            match ch(s, q5, ',') {
                Some(q6) => {
                    p = q6;
                },
                None => {
                    p = q5;
                    break ;
                },
            }
        }
        Ok((clauses, p))
    }

    /// A merge function call `name(args...)`, or else any expression, at
    /// `pos`.
    fn parse_extended_expr(&self, s: &[char], pos: usize, pctx: &mut ParseContext) -> (r: Result<
        (ExtendedExpr, usize),
        ParseError,
    >)
        requires
            pos <= s@.len(),
        ensures
            old(pctx).next() <= final(pctx).next(),
            r matches Ok((e, p)) ==> pos < p <= s@.len() && ids_within(
                extended_ids(e),
                old(pctx).next(),
                final(pctx).next(),
            ),
            r matches Ok((ExtendedExpr::FunctionCall(f), p)) ==> spec_identifier(s@, pos as int) matches Some(
                (name, q),
            ) && f.function_name@ == name && char_at(s@, skip_space(s@, q), '('),
            match lone_atom_end(s@, pos as int) {
                Some(e) => old(pctx).next() < u32::MAX ==> (r matches Ok((ExtendedExpr::PartiQL(x), p)) && p == e
                    && atom_is(s@, skip_space(s@, pos as int), *x, old(pctx).next())),
                None => true,
            },
            match spec_identifier(s@, pos as int) {
                Some((name, q)) => {
                    let a = skip_space(s@, q);
                    let b = skip_space(s@, a + 1);
                    char_at(s@, a, '(') && char_at(s@, b, ')') ==> (r matches Ok((ExtendedExpr::FunctionCall(f), p))
                        && p == b + 1 && f.function_name@ == name && f.arguments@.len() == 0)
                },
                None => true,
            },
            match spec_bp(s@, pos as int, 0) {
                Some((t, e)) => !call_at(s@, pos as int) && old(pctx).next() + tree_size(t) < u32::MAX ==> (r matches Ok(
                    (ExtendedExpr::PartiQL(x), p),
                ) && p == e && tree_is(s@, t, *x) && final(pctx).next() == old(pctx).next() + tree_size(t)),
                None => true,
            },
    {
        let ghost lo = pctx.next();
        let n = s.len();
        proof {
            lemma_identifier_advances(s@, pos as int);
            lemma_identifier_start(s@, pos as int);
            if lone_atom_end(s@, pos as int) is Some && spec_identifier(s@, pos as int) is Some {
                assert(skip_space(s@, pos as int) == pos);
            }
        }
        if let Ok((name, q)) = identifier(s, pos) {
            let q1 = ws0(s, q);
            if let Some(q2) = ch(s, q1, '(') {
                let mut args: Vec<Box<Expr>> = Vec::new();
                let q3 = ws0(s, q2);
                if let Some(q4) = ch(s, q3, ')') {
                    proof {
                        assert(boxed_ids(args@) =~= Set::<nat>::empty());
                    }
                    return Ok((ExtendedExpr::FunctionCall(MergeFunction { function_name: name, arguments: args }), q4));
                }
                let mut p = q3;
                proof {
                    assert(lone_atom_end(s@, pos as int) is None);
                }
                loop
                    invariant
                        lone_atom_end(s@, pos as int) is None,
                        match spec_identifier(s@, pos as int) {
                            Some((nm, qq)) => char_at(s@, skip_space(s@, qq), '(') && !char_at(
                                s@,
                                skip_space(s@, skip_space(s@, qq) + 1),
                                ')',
                            ),
                            None => false,
                        },
                        n == s@.len(),
                        pos < p <= s@.len(),
                        lo == old(pctx).next(),
                        lo <= pctx.next(),
                        ids_within(boxed_ids(args@), lo, pctx.next()),
                    ensures
                        pos < p <= s@.len(),
                        lo <= pctx.next(),
                        ids_within(boxed_ids(args@), lo, pctx.next()),
                    decreases s@.len() - p,
                {
                    let r1 = ws0(s, p);
                    let (arg, r2) = self.pratt.parse_expr(s, r1, pctx)?;
                    let ghost before = args@;
                    args.push(Box::new(arg));
                    proof {
                        assert(args@.drop_last() =~= before);
                    }
                    let r3 = ws0(s, r2);
                    match ch(s, r3, ',') {
                        Some(r4) => {
                            p = r4;
                        },
                        None => {
                            p = r3;
                            break ;
                        },
                    }
                }
                let r5 = ws0(s, p);
                let r6 = match ch(s, r5, ')') {
                    Some(r6) => r6,
                    None => {
                        return Err(ParseError::Backtrack);
                    },
                };
                return Ok((ExtendedExpr::FunctionCall(MergeFunction { function_name: name, arguments: args }), r6));
            }
        }
        let (e, p) = self.pratt.parse_expr(s, pos, pctx)?;
        Ok((ExtendedExpr::PartiQL(Box::new(e)), p))
    }
}

} // verus!
