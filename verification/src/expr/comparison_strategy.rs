//! Comparisons and the comparison special forms.
//!
//! ```text
//! comparison ::= addition (comp_op addition)?
//!              | addition IS [NOT] NULL | addition IS [NOT] MISSING
//!              | addition [NOT] IN '(' expr (',' expr)* ')'
//!              | addition [NOT] LIKE pattern [ESCAPE escape]
//!              | addition [NOT] BETWEEN low AND high
//! comp_op    ::= '=' | '!=' | '<>' | '<' | '>' | '<=' | '>='
//! ```
//! The special forms are tried in the order `IS`, `IN`, `LIKE`,
//! `BETWEEN`; then `NOT` followed by one of them, wrapped in `NOT`; then
//! the operators. `<` is not `<<` (a bag opens) and `>` is not `>>`.
use crate::ast::{expr_ids, BinOp, BinOpKind, Expr, UniOp, UniOpKind};
use crate::expr::comparison::between_parser::BetweenParser;
use crate::expr::comparison::in_parser::{in_opens_at, InParser};
use crate::expr::comparison::is_parser::{spec_is_tail, IsParser};
use crate::expr::pratt::{ended_at, lemma_bp_end, spec_bp, tree_parsed};
use crate::expr::comparison::like_parser::LikeParser;
use crate::expr::{
    expr_parsed, extends_left, ids_within_or, lemma_no_kw_at_stop, lone_atom_end, lone_atom_parsed,
    stop_at, StrategyContext,
};
use crate::parse_context::{ParseContext, ParseError};
use crate::text::{char_at, kw_ws, lemma_kw_first, lit, lit_at, spec_kw_ws, spec_kw_ws0, ws0};
use crate::expr::ExprStrategy;
use vstd::prelude::*;

verus! {

/// Strategy for comparisons.
pub struct ComparisonStrategy;

/// A single `<` at `p`: not followed by `<`, `=` or `>`.
pub open spec fn single_lt_at(s: Seq<char>, p: int) -> bool {
    char_at(s, p, '<') && !char_at(s, p + 1, '<') && !char_at(s, p + 1, '=') && !char_at(s, p + 1, '>')
}

/// A single `>` at `p`: not followed by `>` or `=`.
pub open spec fn single_gt_at(s: Seq<char>, p: int) -> bool {
    char_at(s, p, '>') && !char_at(s, p + 1, '>') && !char_at(s, p + 1, '=')
}

/// Match `<` that is not `<<`, `<=` or `<>`.
pub fn parse_single_lt(s: &[char], pos: usize) -> (r: Option<usize>)
    requires
        pos <= s@.len(),
    ensures
        r is Some <==> single_lt_at(s@, pos as int),
        r matches Some(p) ==> p == pos + 1,
{
    if pos < s.len() && s[pos] == '<' {
        if pos + 1 < s.len() && (s[pos + 1] == '<' || s[pos + 1] == '=' || s[pos + 1] == '>') {
            return None;
        }
        Some(pos + 1)
    } else {
        None
    }
}

/// Match `>` that is not `>>` or `>=`.
pub fn parse_single_gt(s: &[char], pos: usize) -> (r: Option<usize>)
    requires
        pos <= s@.len(),
    ensures
        r is Some <==> single_gt_at(s@, pos as int),
        r matches Some(p) ==> p == pos + 1,
{
    if pos < s.len() && s[pos] == '>' {
        if pos + 1 < s.len() && (s[pos + 1] == '>' || s[pos + 1] == '=') {
            return None;
        }
        Some(pos + 1)
    } else {
        None
    }
}

/// Two chars `a`, `b` start at `p`.
pub open spec fn pair_at(s: Seq<char>, p: int, a: char, b: char) -> bool {
    char_at(s, p, a) && char_at(s, p + 1, b)
}

/// None of the special forms `IS`, `IN`, `LIKE` and `BETWEEN` stands at
/// `p`.
pub open spec fn no_special_at(s: Seq<char>, p: int) -> bool {
    &&& spec_is_tail(s, p) is None
    &&& !in_opens_at(s, p)
    &&& spec_kw_ws(s, p, "LIKE"@) is None
    &&& spec_kw_ws(s, p, "BETWEEN"@) is None
}

/// Where an expression above `AND` ends (see [`ended_at`]), no special
/// form, no `NOT` and no comparison operator follows.
pub proof fn lemma_no_special(s: Seq<char>, e: int)
    requires
        ended_at(s, e, 5),
    ensures
        no_special_at(s, e),
        spec_kw_ws(s, e, "NOT"@) is None,
        spec_comparison_operator(s, e) is None,
{
    reveal_strlit("IS");
    reveal_strlit("IN");
    reveal_strlit("LIKE");
    reveal_strlit("BETWEEN");
    reveal_strlit("NOT");
    if spec_kw_ws(s, e, "IS"@) is Some {
        lemma_kw_first(s, e, "IS"@);
    }
    if spec_kw_ws0(s, e, "IN"@) is Some {
        lemma_kw_first(s, e, "IN"@);
    }
    if spec_kw_ws(s, e, "LIKE"@) is Some {
        lemma_kw_first(s, e, "LIKE"@);
    }
    if spec_kw_ws(s, e, "BETWEEN"@) is Some {
        lemma_kw_first(s, e, "BETWEEN"@);
    }
    if spec_kw_ws(s, e, "NOT"@) is Some {
        lemma_kw_first(s, e, "NOT"@);
    }
}

/// The comparison operator at `p` and the position after it: `!=` and
/// `<>` first, then `<=`, `>=`, `=`, a single `<`, a single `>`.
pub open spec fn spec_comparison_operator(s: Seq<char>, p: int) -> Option<(BinOpKind, int)> {
    if pair_at(s, p, '!', '=') || pair_at(s, p, '<', '>') {
        Some((BinOpKind::Ne, p + 2))
    } else if pair_at(s, p, '<', '=') {
        Some((BinOpKind::Lte, p + 2))
    } else if pair_at(s, p, '>', '=') {
        Some((BinOpKind::Gte, p + 2))
    } else if char_at(s, p, '=') {
        Some((BinOpKind::Eq, p + 1))
    } else if single_lt_at(s, p) {
        Some((BinOpKind::Lt, p + 1))
    } else if single_gt_at(s, p) {
        Some((BinOpKind::Gt, p + 1))
    } else {
        None
    }
}

proof fn lemma_pair_lit(s: Seq<char>, p: int, l: Seq<char>, a: char, b: char)
    requires
        l.len() == 2,
        l[0] == a,
        l[1] == b,
    ensures
        lit_at(s, p, l) == pair_at(s, p, a, b),
{
    if pair_at(s, p, a, b) {
        assert(s.subrange(p, p + 2) =~= l);
    }
    if lit_at(s, p, l) {
        assert(s.subrange(p, p + 2)[0] == l[0]);
        assert(s.subrange(p, p + 2)[1] == l[1]);
    }
}

/// The comparison operator at `p`, with the position after it.
pub fn comparison_operator(s: &[char], p: usize) -> (r: Option<(BinOpKind, usize)>)
    requires
        p <= s@.len(),
    ensures
        r matches Some((k, q)) ==> p < q <= s@.len(),
        match spec_comparison_operator(s@, p as int) {
            Some((k, q)) => r == Some((k, q as usize)),
            None => r is None,
        },
{
    proof {
        reveal_strlit("!=");
        reveal_strlit("<>");
        reveal_strlit("<=");
        reveal_strlit(">=");
        reveal_strlit("=");
        lemma_pair_lit(s@, p as int, "!="@, '!', '=');
        lemma_pair_lit(s@, p as int, "<>"@, '<', '>');
        lemma_pair_lit(s@, p as int, "<="@, '<', '=');
        lemma_pair_lit(s@, p as int, ">="@, '>', '=');
        if char_at(s@, p as int, '=') {
            assert(s@.subrange(p as int, p + 1) =~= "="@);
        }
        if lit_at(s@, p as int, "="@) {
            assert(s@.subrange(p as int, p + 1)[0] == "="@[0]);
        }
    }
    if let Some(q) = lit(s, p, "!=") {
        Some((BinOpKind::Ne, q))
    } else if let Some(q) = lit(s, p, "<>") {
        Some((BinOpKind::Ne, q))
    } else if let Some(q) = lit(s, p, "<=") {
        Some((BinOpKind::Lte, q))
    } else if let Some(q) = lit(s, p, ">=") {
        Some((BinOpKind::Gte, q))
    } else if let Some(q) = lit(s, p, "=") {
        Some((BinOpKind::Eq, q))
    } else if let Some(q) = parse_single_lt(s, p) {
        Some((BinOpKind::Lt, q))
    } else if let Some(q) = parse_single_gt(s, p) {
        Some((BinOpKind::Gt, q))
    } else {
        None
    }
}

impl ComparisonStrategy {
    pub fn new() -> (r: Self) {
        ComparisonStrategy
    }

    /// The special forms in order at `pos`, applied to `left`.
    fn special_form(&self, ctx: &StrategyContext, s: &[char], pos: usize, pctx: &mut ParseContext, left: Expr)
        -> (r: Result<(Expr, usize), (Option<Expr>, ParseError)>)
        requires
            pos <= s@.len(),
        ensures
            old(pctx).next() <= final(pctx).next(),
            extends_left(s@, pos as int, left, old(pctx).next(), final(pctx).next(), r),
            stop_at(s@, pos as int) ==> r == Err::<(Expr, usize), (Option<Expr>, ParseError)>(
                (Some(left), ParseError::Backtrack),
            ) && final(pctx).next() == old(pctx).next(),
            no_special_at(s@, pos as int) ==> r == Err::<(Expr, usize), (Option<Expr>, ParseError)>(
                (Some(left), ParseError::Backtrack),
            ) && final(pctx).next() == old(pctx).next(),
    {
        proof {
            if stop_at(s@, pos as int) {
                reveal_strlit("IS");
                reveal_strlit("IN");
                reveal_strlit("LIKE");
                reveal_strlit("BETWEEN");
                lemma_no_kw_at_stop(s@, pos as int, "IS"@);
                lemma_no_kw_at_stop(s@, pos as int, "IN"@);
                lemma_no_kw_at_stop(s@, pos as int, "LIKE"@);
                lemma_no_kw_at_stop(s@, pos as int, "BETWEEN"@);
            }
        }
        let left = match IsParser.parse(ctx.pratt, s, pos, pctx, left) {
            Err((Some(l), ParseError::Backtrack)) => l,
            res => {
                return res;
            },
        };
        let left = match InParser.parse(ctx.pratt, s, pos, pctx, left) {
            Err((Some(l), ParseError::Backtrack)) => l,
            res => {
                return res;
            },
        };
        let left = match LikeParser.parse(ctx.pratt, s, pos, pctx, left) {
            Err((Some(l), ParseError::Backtrack)) => l,
            res => {
                return res;
            },
        };
        BetweenParser.parse(ctx.pratt, s, pos, pctx, left)
    }

    /// A comparison at `pos`: an operand at the next level, then a
    /// special form, a negated special form, or an operator and a second
    /// operand; the operand alone when none follows.
    pub fn parse(&self, ctx: &StrategyContext, s: &[char], pos: usize, pctx: &mut ParseContext) -> (r:
        Result<(Expr, usize), ParseError>)
        requires
            pos <= s@.len(),
        ensures
            old(pctx).next() <= final(pctx).next(),
            expr_parsed(s@, pos as int, old(pctx).next(), final(pctx).next(), r),
            lone_atom_parsed(s@, pos as int, old(pctx).next(), final(pctx).next(), r),
            tree_parsed(s@, pos as int, 5, old(pctx).next() as nat, final(pctx).next() as nat, r),
    {
        let ghost lo = pctx.next();
        let (left, p0) = ctx.parse_next_level(s, pos, pctx)?;
        proof {
            lemma_bp_end(s@, pos as int, 5);
            if let Some((t, e)) = spec_bp(s@, pos as int, 5) {
                if pctx.next() < u32::MAX {
                    lemma_no_special(s@, e);
                }
            }
        }
        proof {
            if lone_atom_end(s@, pos as int) is Some && lo < u32::MAX {
                crate::text::lemma_skip_space_idem(s@, p0 as int);
                reveal_strlit("NOT");
                lemma_no_kw_at_stop(s@, p0 as int, "NOT"@);
            }
        }
        let p = ws0(s, p0);
        let ghost left_ids = expr_ids(left);
        let ghost mid = pctx.next();
        let left = match self.special_form(ctx, s, p, pctx, left) {
            Ok((e, q)) => {
                return Ok((e, q));
            },
            Err((Some(l), ParseError::Backtrack)) => l,
            Err((_, e)) => {
                return Err(e);
            },
        };
        if let Some(q) = kw_ws(s, p, "NOT") {
            let left = match self.special_form(ctx, s, q, pctx, left) {
                Ok((e, q2)) => {
                    let node = pctx.node(UniOp { kind: UniOpKind::Not, expr: Box::new(e) })?;
                    return Ok((Expr::UniOp(node), q2));
                },
                Err((Some(l), ParseError::Backtrack)) => l,
                Err((_, e)) => {
                    return Err(e);
                },
            };
            return self.operator_tail(ctx, s, p, p0, pctx, left);
        }
        self.operator_tail(ctx, s, p, p0, pctx, left)
    }

    /// A comparison operator and its right operand at `p`, applied to
    /// `left`; `left` alone, ending at `end`, when no operator follows.
    fn operator_tail(
        &self,
        ctx: &StrategyContext,
        s: &[char],
        p: usize,
        end: usize,
        pctx: &mut ParseContext,
        left: Expr,
    ) -> (r: Result<(Expr, usize), ParseError>)
        requires
            end <= p <= s@.len(),
        ensures
            old(pctx).next() <= final(pctx).next(),
            r matches Ok((e, q)) ==> end <= q <= s@.len() && ids_within_or(
                expr_ids(e),
                expr_ids(left),
                old(pctx).next(),
                final(pctx).next(),
            ),
            match spec_comparison_operator(s@, p as int) {
                None => r == Ok::<(Expr, usize), ParseError>((left, end)) && final(pctx).next() == old(pctx).next(),
                Some((k, q)) => r matches Ok((e, q2)) ==> e matches Expr::BinOp(b) && b.node.kind == k
                    && *b.node.lhs == left,
            },
    {
        let ghost left_ids = expr_ids(left);
        let ghost lo = pctx.next();
        match comparison_operator(s, p) {
            Some((kind, q)) => {
                let q1 = ws0(s, q);
                let (right, q2) = ctx.parse_next_level(s, q1, pctx)?;
                let node = pctx.node(BinOp { kind, lhs: Box::new(left), rhs: Box::new(right) })?;
                let e = Expr::BinOp(node);
                proof {
                    assert(ids_within_or(expr_ids(e), left_ids, lo, pctx.next()));
                }
                Ok((e, q2))
            },
            None => Ok((left, end)),
        }
    }
}

impl ExprStrategy for ComparisonStrategy {
    fn parse(&self, ctx: &StrategyContext, s: &[char], pos: usize, pctx: &mut ParseContext) -> (r: Result<
        (Expr, usize),
        ParseError,
    >) {
        ComparisonStrategy::parse(self, ctx, s, pos, pctx)
    }
}

} // verus!
