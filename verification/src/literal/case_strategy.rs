//! `CASE` expressions.
//!
//! ```text
//! case_expr     ::= simple_case | searched_case
//! simple_case   ::= CASE expr (WHEN expr THEN expr)* [ELSE expr] END
//! searched_case ::= CASE (WHEN expr THEN expr)* [ELSE expr] END
//! ```
//! After `CASE`, a `WHEN` makes the expression searched; anything else
//! is the operand of a simple case.
use crate::ast::{
    ids_within, opt_expr_ids, pair_ids, Case, Expr, ExprPair, SearchedCase, SimpleCase,
};
use crate::expr::{atom_then_end, expr_parsed, lemma_atom_then_fixed};
use crate::expr::pratt::{opt_size, opt_tree_is, spec_bp, tree_is, tree_size, PrattParser, Tree};
use crate::parse_context::{ParseContext, ParseError};
use crate::text::{kw, kw_at, kw_ws, skip_space, spec_kw_ws, ws0};
use crate::expr::StrategyContext;
use crate::literal::LiteralStrategy;
use vstd::prelude::*;

verus! {

/// `[ELSE atom] END` at `p`, each atom a whole expression: whether there
/// is a default, and the position after `END`.
pub open spec fn plain_else_end(s: Seq<char>, p: int) -> Option<(bool, int)> {
    match spec_kw_ws(s, p, "ELSE"@) {
        Some(q) => match atom_then_end(s, q) {
            Some(e) => if kw_at(s, e, "END"@) {
                Some((true, e + 3))
            } else {
                None
            },
            None => None,
        },
        None => if kw_at(s, p, "END"@) {
            Some((false, p + 3))
        } else {
            None
        },
    }
}

/// A plain case tail at `p`: at most one `WHEN atom THEN atom`, then
/// `[ELSE atom] END`, each atom a whole expression. How many pairs,
/// whether there is a default, and the position after `END`.
pub open spec fn plain_tail(s: Seq<char>, p: int) -> Option<(nat, bool, int)> {
    match spec_kw_ws(s, p, "WHEN"@) {
        Some(q) => match atom_then_end(s, q) {
            Some(a) => match spec_kw_ws(s, a, "THEN"@) {
                Some(b) => match atom_then_end(s, b) {
                    Some(c) => if spec_kw_ws(s, c, "WHEN"@) is None {
                        match plain_else_end(s, c) {
                            Some((d, e)) => Some((1, d, e)),
                            None => None,
                        }
                    } else {
                        None
                    },
                    None => None,
                },
                None => None,
            },
            None => None,
        },
        None => match plain_else_end(s, p) {
            Some((d, e)) => Some((0, d, e)),
            None => None,
        },
    }
}

/// `WHEN condition THEN result` pairs from `p` on, each expression in the
/// operator grammar (see [`spec_bp`]): the shapes of each condition and
/// its result, in order, and where the pairs end (no `WHEN` there).
pub open spec fn spec_case_pairs(s: Seq<char>, p: int) -> Option<(Seq<(Tree, Tree)>, int)>
    decreases s.len() - p,
{
    match spec_kw_ws(s, p, "WHEN"@) {
        Some(q) => match spec_bp(s, q, 0) {
            Some((cond, e1)) => match spec_kw_ws(s, skip_space(s, e1), "THEN"@) {
                Some(h) => match spec_bp(s, h, 0) {
                    Some((res, e2)) => {
                        let n = skip_space(s, e2);
                        if p < n <= s.len() {
                            match spec_case_pairs(s, n) {
                                Some((ps, f)) => Some((seq![(cond, res)] + ps, f)),
                                None => None,
                            }
                        } else {
                            None
                        }
                    },
                    None => None,
                },
                None => None,
            },
            None => None,
        },
        None => if 0 <= p <= s.len() {
            Some((Seq::empty(), p))
        } else {
            None
        },
    }
}

/// The tail of a `CASE` from `p`: the pairs of [`spec_case_pairs`], an
/// optional `ELSE` expression, then `END`; the pairs, the default's shape
/// and the position after `END`.
pub open spec fn spec_case_tail(s: Seq<char>, p: int) -> Option<(Seq<(Tree, Tree)>, Option<Tree>, int)> {
    match spec_case_pairs(s, p) {
        Some((ps, p1)) => match spec_kw_ws(s, p1, "ELSE"@) {
            Some(q) => match spec_bp(s, q, 0) {
                Some((d, e)) => if kw_at(s, skip_space(s, e), "END"@) {
                    Some((ps, Some(d), skip_space(s, e) + 3))
                } else {
                    None
                },
                None => None,
            },
            None => if kw_at(s, p1, "END"@) {
                Some((ps, None, p1 + 3))
            } else {
                None
            },
        },
        None => None,
    }
}

/// The pairs from `p` on, where they are well formed.
pub open spec fn case_rest(s: Seq<char>, p: int) -> Seq<(Tree, Tree)> {
    match spec_case_pairs(s, p) {
        Some((ps, f)) => ps,
        None => Seq::empty(),
    }
}

/// Where the pairs from `p` on end, where they are well formed.
pub open spec fn case_rest_end(s: Seq<char>, p: int) -> int {
    match spec_case_pairs(s, p) {
        Some((ps, f)) => f,
        None => p,
    }
}

/// How many nodes the pairs `ps` take: those of each condition and each
/// result.
pub open spec fn case_size(ps: Seq<(Tree, Tree)>) -> nat
    decreases ps.len(),
{
    if ps.len() == 0 {
        0
    } else {
        case_size(ps.subrange(0, ps.len() - 1)) + tree_size(ps[ps.len() - 1].0) + tree_size(ps[ps.len() - 1].1)
    }
}

/// The size of pairs read in two parts is the sum of the parts' sizes.
proof fn lemma_case_size_concat(a: Seq<(Tree, Tree)>, b: Seq<(Tree, Tree)>)
    ensures
        case_size(a + b) == case_size(a) + case_size(b),
    decreases b.len(),
{
    if b.len() == 0 {
        assert(a + b =~= a);
    } else {
        let b0 = b.subrange(0, b.len() - 1);
        lemma_case_size_concat(a, b0);
        assert((a + b).subrange(0, (a + b).len() - 1) =~= a + b0);
    }
}

/// One more pair adds the sizes of its two expressions.
proof fn lemma_case_size_push(ps: Seq<(Tree, Tree)>, x: (Tree, Tree))
    ensures
        case_size(ps.push(x)) == case_size(ps) + tree_size(x.0) + tree_size(x.1),
        case_size(seq![x]) == tree_size(x.0) + tree_size(x.1),
{
    assert(ps.push(x).subrange(0, ps.len() as int) =~= ps);
    let none = Seq::<(Tree, Tree)>::empty();
    assert(none.push(x).subrange(0, 0) =~= none);
    assert(case_size(none) == 0);
    assert(seq![x] =~= none.push(x));
    assert(case_size(none.push(x)) == case_size(none) + tree_size(x.0) + tree_size(x.1));
}

/// The `CASE` pairs `cases` are the shapes `ps`, one for one: each pair's
/// first expression is the condition read after its `WHEN`, its second
/// the result read after its `THEN`.
pub open spec fn case_pairs_are(s: Seq<char>, ps: Seq<(Tree, Tree)>, cases: Seq<ExprPair>) -> bool {
    &&& cases.len() == ps.len()
    &&& forall|i: int| 0 <= i < ps.len() ==> tree_is(s, (#[trigger] ps[i]).0, *cases[i].first) && tree_is(
        s,
        ps[i].1,
        *cases[i].second,
    )
}

/// Strategy for `CASE` expressions.
pub struct CaseExprStrategy;

impl CaseExprStrategy {
    /// Parse `CASE ... END` at `pos`: searched when `WHEN` follows `CASE`,
    /// simple otherwise.
    pub fn parse(&self, pratt: &PrattParser, s: &[char], pos: usize, pctx: &mut ParseContext) -> (r:
        Result<(Expr, usize), ParseError>)
        requires
            pos <= s@.len(),
        ensures
            old(pctx).next() <= final(pctx).next(),
            expr_parsed(s@, pos as int, old(pctx).next(), final(pctx).next(), r),
            spec_kw_ws(s@, pos as int, "CASE"@) is None ==> r == Err::<(Expr, usize), ParseError>(
                ParseError::Backtrack),
            r matches Ok((e, p)) ==> {
                &&& e matches Expr::Case(c)
                &&& spec_kw_ws(s@, pos as int, "CASE"@) matches Some(q)
                &&& (c.node is SearchedCase <==> spec_kw_ws(s@, q, "WHEN"@) is Some)
                &&& kw_at(s@, p - "END"@.len(), "END"@)
            },
            match spec_kw_ws(s@, pos as int, "CASE"@) {
                Some(p1) => if spec_kw_ws(s@, p1, "WHEN"@) is Some {
                    match plain_tail(s@, p1) {
                        Some((k, d, e)) => old(pctx).next() + 4 < u32::MAX ==> (r matches Ok((x, p)) && p == e
                            && match x {
                            Expr::Case(c) => c.node matches Case::SearchedCase(sc) && sc.cases@.len() == k && (
                            sc.default is Some) == d,
                            _ => false,
                        }),
                        None => true,
                    }
                } else {
                    match atom_then_end(s@, p1) {
                        Some(a) => match plain_tail(s@, a) {
                            Some((k, d, e)) => old(pctx).next() + 5 < u32::MAX ==> (r matches Ok((x, p)) && p == e
                                && match x {
                                Expr::Case(c) => c.node matches Case::SimpleCase(sc) && sc.cases@.len() == k && (
                                sc.default is Some) == d,
                                _ => false,
                            }),
                            None => true,
                        },
                        None => true,
                    }
                },
                None => true,
            },
            match spec_kw_ws(s@, pos as int, "CASE"@) {
                Some(p1) => if spec_kw_ws(s@, p1, "WHEN"@) is Some {
                    match spec_case_tail(s@, p1) {
                        Some((ps, d, e)) => old(pctx).next() + case_size(ps) + opt_size(d) + 1 < u32::MAX ==> (
                        r matches Ok((Expr::Case(c), p)) && p == e && (c.node matches Case::SearchedCase(sc)
                            && case_pairs_are(s@, ps, sc.cases@) && opt_tree_is(s@, d, sc.default))),
                        None => true,
                    }
                } else {
                    match spec_bp(s@, p1, 0) {
                        Some((t, e0)) => match spec_case_tail(s@, skip_space(s@, e0)) {
                            Some((ps, d, e)) => old(pctx).next() + tree_size(t) + case_size(ps) + opt_size(d) + 1
                                < u32::MAX ==> (r matches Ok((Expr::Case(c), p)) && p == e && (c.node matches Case::SimpleCase(sc)
                                && tree_is(s@, t, *sc.expr) && case_pairs_are(s@, ps, sc.cases@) && opt_tree_is(
                                s@,
                                d,
                                sc.default,
                            ))),
                            None => true,
                        },
                        None => true,
                    }
                },
                None => true,
            },
        decreases s@.len() - pos, 2nat,
    {
        let p1 = match kw_ws(s, pos, "CASE") {
            Some(p1) => p1,
            None => {
                return Err(ParseError::Backtrack);
            },
        };
        if kw_ws(s, p1, "WHEN").is_some() {
            parse_searched_case(pratt, s, p1, pctx)
        } else {
            parse_simple_case(pratt, s, p1, pctx)
        }
    }
}

/// `(WHEN expr THEN expr)* [ELSE expr] END` from `pos`, after the
/// operand if any: the pairs, the default and the end.
#[verifier::rlimit(100)]
#[verifier::spinoff_prover]
fn parse_case_tail(pratt: &PrattParser, s: &[char], pos: usize, pctx: &mut ParseContext) -> (r:
    Result<(Vec<ExprPair>, Option<Box<Expr>>, usize), ParseError>)
    requires
        pos <= s@.len(),
    ensures
        old(pctx).next() <= final(pctx).next(),
        r matches Ok((cases, default, p)) ==> {
            &&& pos < p <= s@.len()
            &&& ids_within(pair_ids(cases@), old(pctx).next(), final(pctx).next())
            &&& ids_within(opt_expr_ids(default), old(pctx).next(), final(pctx).next())
            &&& kw_at(s@, p - "END"@.len(), "END"@)
        },
        match plain_tail(s@, pos as int) {
            Some((k, d, e)) => old(pctx).next() + 3 < u32::MAX ==> (r matches Ok((cases, default, p)) && cases@.len()
                == k && (default is Some) == d && p == e && final(pctx).next() <= old(pctx).next() + 3),
            None => true,
        },
        match spec_case_tail(s@, pos as int) {
            Some((ps, d, e)) => old(pctx).next() + case_size(ps) + opt_size(d) < u32::MAX ==> (r matches Ok(
                (cases, default, p),
            ) && p == e && case_pairs_are(s@, ps, cases@) && opt_tree_is(s@, d, default) && final(pctx).next()
                == old(pctx).next() + case_size(ps) + opt_size(d)),
            None => true,
        },
    decreases s@.len() - pos, 8nat,
{
    proof {
        reveal_strlit("END");
    }
    let ghost lo = pctx.next();
    let n = s.len();
    let mut cases: Vec<ExprPair> = Vec::new();
    let mut p = pos;
    let ghost plain = plain_tail(s@, pos as int) is Some && lo + 3 < u32::MAX;
    let ghost c: int = match spec_kw_ws(s@, pos as int, "WHEN"@) {
        Some(q) => match atom_then_end(s@, q) {
            Some(a) => match spec_kw_ws(s@, a, "THEN"@) {
                Some(b) => match atom_then_end(s@, b) {
                    Some(c) => c,
                    None => 0,
                },
                None => 0,
            },
            None => 0,
        },
        None => pos as int,
    };
    let ghost k: nat = match plain_tail(s@, pos as int) {
        Some((k, d, e)) => k,
        None => 0,
    };
    let ghost good = spec_case_tail(s@, pos as int) is Some;
    let ghost all: Seq<(Tree, Tree)> = case_rest(s@, pos as int);
    let ghost dflt: Option<Tree> = match spec_case_tail(s@, pos as int) {
        Some((ps, d, e)) => d,
        None => None,
    };
    let ghost fits = good && lo + case_size(all) + opt_size(dflt) < u32::MAX;
    proof {
        if let Some((ps, d, e)) = spec_case_tail(s@, pos as int) {
            assert(ps == all && d == dflt);
        }
    }
    let ghost mut done: Seq<(Tree, Tree)> = Seq::empty();
    proof {
        assert(done + case_rest(s@, pos as int) =~= case_rest(s@, pos as int));
        if plain && k == 1 {
            let q = spec_kw_ws(s@, pos as int, "WHEN"@)->Some_0;
            let a = atom_then_end(s@, q)->Some_0;
            let b = spec_kw_ws(s@, a, "THEN"@)->Some_0;
            lemma_atom_then_fixed(s@, q);
            lemma_atom_then_fixed(s@, b);
        }
    }
    loop
        invariant_except_break
            plain ==> (p == pos && cases@.len() == 0 && pctx.next() == lo) || (k == 1 && p == c
                && cases@.len() == 1 && pctx.next() == lo + 2),
            fits ==> spec_case_pairs(s@, p as int) is Some && spec_case_pairs(s@, pos as int) == Some(
                (done + case_rest(s@, p as int), case_rest_end(s@, p as int)),
            ) && case_pairs_are(s@, done, cases@) && pctx.next() == lo + case_size(done),
        invariant
            good == (spec_case_tail(s@, pos as int) is Some),
            all == case_rest(s@, pos as int),
            fits == (good && lo + case_size(all) + opt_size(dflt) < u32::MAX),
            good ==> (spec_case_tail(s@, pos as int) matches Some((ps, d, e)) && ps == all && d == dflt),
            plain == (plain_tail(s@, pos as int) is Some && lo + 3 < u32::MAX),
            plain_tail(s@, pos as int) matches Some((kk, dd, ee)) ==> kk == k,
            plain && k == 1 ==> ({
                let q = spec_kw_ws(s@, pos as int, "WHEN"@)->Some_0;
                let a = atom_then_end(s@, q)->Some_0;
                let b = spec_kw_ws(s@, a, "THEN"@)->Some_0;
                &&& spec_kw_ws(s@, pos as int, "WHEN"@) is Some
                &&& atom_then_end(s@, q) is Some
                &&& skip_space(s@, a) == a
                &&& spec_kw_ws(s@, a, "THEN"@) is Some
                &&& atom_then_end(s@, b) == Some(c)
                &&& skip_space(s@, c) == c
                &&& atom_then_end(s@, skip_space(s@, q)) == atom_then_end(s@, q)
                &&& atom_then_end(s@, skip_space(s@, b)) == atom_then_end(s@, b)
                &&& skip_space(s@, skip_space(s@, q)) == skip_space(s@, q)
                &&& skip_space(s@, skip_space(s@, b)) == skip_space(s@, b)
                &&& spec_kw_ws(s@, c, "WHEN"@) is None
            }),
            plain && k == 0 ==> spec_kw_ws(s@, pos as int, "WHEN"@) is None && c == pos,
            n == s@.len(),
            pos <= p <= s@.len(),
            lo == old(pctx).next(),
            lo <= pctx.next(),
            ids_within(pair_ids(cases@), lo, pctx.next()),
        ensures
            pos <= p <= s@.len(),
            lo <= pctx.next(),
            ids_within(pair_ids(cases@), lo, pctx.next()),
            plain ==> p == c && cases@.len() == k && pctx.next() == lo + 2 * k,
            fits ==> spec_case_pairs(s@, pos as int) == Some((done, p as int)) && case_pairs_are(s@, done, cases@)
                && pctx.next() == lo + case_size(done),
        decreases s@.len() - p,
    {
        let q = match kw_ws(s, p, "WHEN") {
            Some(q) => q,
            None => {
                break ;
            },
        };
        let ghost p_old = p;
        let ghost t1 = match spec_bp(s@, q as int, 0) {
            Some((t, e)) => t,
            None => Tree::Atom(0),
        };
        proof {
            if fits {
                let rest = case_rest(s@, p as int);
                assert(rest.len() > 0);
                assert(rest =~= seq![rest[0]] + rest.subrange(1, rest.len() as int));
                lemma_case_size_concat(seq![rest[0]], rest.subrange(1, rest.len() as int));
                lemma_case_size_push(Seq::empty(), rest[0]);
                lemma_case_size_concat(done, rest);
                assert(done + rest == all);
                assert(rest[0].0 == t1);
                assert(pctx.next() + tree_size(t1) < u32::MAX);
                assert(spec_bp(s@, q as int, 0) is Some);
            }
        }
        let (when_expr, q2) = pratt.parse_expr(s, q, pctx)?;
        proof {
            if fits {
                let rest = case_rest(s@, p as int);
                assert(spec_bp(s@, q as int, 0) == Some((t1, q2 as int)));
                assert(spec_kw_ws(s@, skip_space(s@, q2 as int), "THEN"@) is Some);
                assert(pctx.next() + tree_size(rest[0].1) < u32::MAX);
            }
        }
        let q3 = ws0(s, q2);
        let q4 = match kw_ws(s, q3, "THEN") {
            Some(q4) => q4,
            None => {
                return Err(ParseError::Backtrack);
            },
        };
        let ghost t2 = match spec_bp(s@, q4 as int, 0) {
            Some((t, e)) => t,
            None => Tree::Atom(0),
        };
        let (then_expr, q5) = pratt.parse_expr(s, q4, pctx)?;
        let ghost before = cases@;
        cases.push(ExprPair { first: Box::new(when_expr), second: Box::new(then_expr) });
        proof {
            assert(cases@.drop_last() =~= before);
        }
        p = ws0(s, q5);
        proof {
            if fits {
                let x = (t1, t2);
                lemma_case_size_push(done, x);
                assert forall|i: int| 0 <= i < done.push(x).len() implies tree_is(
                    s@,
                    (#[trigger] done.push(x)[i]).0,
                    *cases@[i].first,
                ) && tree_is(s@, done.push(x)[i].1, *cases@[i].second) by {
                    if i < done.len() {
                        assert(cases@[i] == before[i]);
                    }
                }
                assert(done + (seq![x] + case_rest(s@, p as int)) =~= done.push(x) + case_rest(s@, p as int));
            }
            done = done.push((t1, t2));
        }
    }
    let (default, p2) = match kw_ws(s, p, "ELSE") {
        Some(q) => {
            let (else_expr, q2) = pratt.parse_expr(s, q, pctx)?;
            (Some(Box::new(else_expr)), ws0(s, q2))
        },
        None => (None, p),
    };
    let p3 = match kw(s, p2, "END") {
        Some(p3) => p3,
        None => {
            return Err(ParseError::Backtrack);
        },
    };
    Ok((cases, default, p3))
}

/// `CASE expr WHEN expr THEN expr [WHEN ...] [ELSE expr] END`, from the
/// operand at `pos`.
fn parse_simple_case(pratt: &PrattParser, s: &[char], pos: usize, pctx: &mut ParseContext) -> (r:
    Result<(Expr, usize), ParseError>)
    requires
        pos <= s@.len(),
    ensures
        old(pctx).next() <= final(pctx).next(),
        expr_parsed(s@, pos as int, old(pctx).next(), final(pctx).next(), r),
        r matches Ok((e, p)) ==> e matches Expr::Case(c) && c.node is SimpleCase && kw_at(
            s@,
            p - "END"@.len(),
            "END"@,
        ),
        match atom_then_end(s@, pos as int) {
            Some(a) => match plain_tail(s@, a) {
                Some((k, d, e)) => old(pctx).next() + 5 < u32::MAX ==> (r matches Ok((x, p)) && p == e && match x {
                    Expr::Case(c) => c.node matches Case::SimpleCase(sc) && sc.cases@.len() == k && (sc.default is Some)
                        == d,
                    _ => false,
                }),
                None => true,
            },
            None => true,
        },
        match spec_bp(s@, pos as int, 0) {
            Some((t, e0)) => match spec_case_tail(s@, skip_space(s@, e0)) {
                Some((ps, d, e)) => old(pctx).next() + tree_size(t) + case_size(ps) + opt_size(d) + 1 < u32::MAX ==> (
                r matches Ok((Expr::Case(c), p)) && p == e && (c.node matches Case::SimpleCase(sc) && tree_is(
                    s@,
                    t,
                    *sc.expr,
                ) && case_pairs_are(s@, ps, sc.cases@) && opt_tree_is(s@, d, sc.default))),
                None => true,
            },
            None => true,
        },
    decreases s@.len() - pos, 9nat,
{
    let ghost lo = pctx.next();
    let (expr, p1) = pratt.parse_expr(s, pos, pctx)?;
    proof {
        lemma_atom_then_fixed(s@, pos as int);
    }
    let p2 = ws0(s, p1);
    let (cases, default, p3) = parse_case_tail(pratt, s, p2, pctx)?;
    let node = pctx.node(Case::SimpleCase(SimpleCase { expr: Box::new(expr), cases, default }))?;
    Ok((Expr::Case(node), p3))
}

/// `CASE WHEN expr THEN expr [WHEN ...] [ELSE expr] END`, from the first
/// `WHEN` at `pos`.
fn parse_searched_case(pratt: &PrattParser, s: &[char], pos: usize, pctx: &mut ParseContext) -> (r:
    Result<(Expr, usize), ParseError>)
    requires
        pos <= s@.len(),
    ensures
        old(pctx).next() <= final(pctx).next(),
        expr_parsed(s@, pos as int, old(pctx).next(), final(pctx).next(), r),
        r matches Ok((e, p)) ==> e matches Expr::Case(c) && c.node is SearchedCase && kw_at(
            s@,
            p - "END"@.len(),
            "END"@,
        ),
        match plain_tail(s@, pos as int) {
            Some((k, d, e)) => old(pctx).next() + 4 < u32::MAX ==> (r matches Ok((x, p)) && p == e && match x {
                Expr::Case(c) => c.node matches Case::SearchedCase(sc) && sc.cases@.len() == k && (sc.default is Some)
                    == d,
                _ => false,
            }),
            None => true,
        },
        match spec_case_tail(s@, pos as int) {
            Some((ps, d, e)) => old(pctx).next() + case_size(ps) + opt_size(d) + 1 < u32::MAX ==> (r matches Ok(
                (Expr::Case(c), p),
            ) && p == e && (c.node matches Case::SearchedCase(sc) && case_pairs_are(s@, ps, sc.cases@)
                && opt_tree_is(s@, d, sc.default))),
            None => true,
        },
    decreases s@.len() - pos, 9nat,
{
    let (cases, default, p1) = parse_case_tail(pratt, s, pos, pctx)?;
    let node = pctx.node(Case::SearchedCase(SearchedCase { cases, default }))?;
    Ok((Expr::Case(node), p1))
}

impl LiteralStrategy for CaseExprStrategy {
    fn parse(&self, ctx: &StrategyContext, s: &[char], pos: usize, pctx: &mut ParseContext) -> (r: Result<
        (Expr, usize),
        ParseError,
    >) {
        CaseExprStrategy::parse(self, ctx.pratt, s, pos, pctx)
    }
}

} // verus!
