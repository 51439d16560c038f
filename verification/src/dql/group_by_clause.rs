//! `GROUP BY` clause.
//!
//! ```text
//! group_by_clause ::= GROUP BY group_key (',' group_key)*
//! group_key       ::= expr [[AS] alias]
//! ```
use crate::ast::{expr_ids, group_key_ids, ids_within, AstNode, GroupByExpr, GroupKey};
use crate::dql::{alias, spec_alias};
use crate::dql::from_clause::symbol;
use crate::expr::{
    atom_is, lemma_no_kw_at_stop, lemma_stop_fixed, lone_atom_end, stop_at, ExprChain,
};
use crate::dql::from_clause::alias_is;
use crate::expr::pratt::{
    entries_size, lemma_entries_size_concat, lemma_entries_size_first, lemma_entries_size_push, spec_bp, tree_is,
    Tree,
};
use crate::parse_context::{ParseContext, ParseError};
use crate::text::{ch, char_at, lemma_skip_space_idem, skip_space, ws0};
use vstd::prelude::*;

verus! {

/// Comma-separated grouping keys from `p` on, each an expression in the
/// operator grammar and an optional alias: their shapes and alias names,
/// and where the last ends.
pub open spec fn spec_keys(s: Seq<char>, p: int) -> Option<(Seq<(Tree, Option<Seq<char>>)>, int)>
    decreases s.len() - p,
{
    match spec_bp(s, skip_space(s, p), 0) {
        Some((t, q1)) => {
            let (a, q3) = match spec_alias(s, skip_space(s, q1)) {
                Some((v, e)) => (Some(v), e),
                None => (None, q1),
            };
            let q4 = skip_space(s, q3);
            if p < q4 && char_at(s, q4, ',') {
                match spec_keys(s, q4 + 1) {
                    Some((ks, f)) => Some((seq![(t, a)] + ks, f)),
                    None => None,
                }
            } else {
                Some((seq![(t, a)], q3))
            }
        },
        None => None,
    }
}

/// The keys from `p` on, where they are well formed.
pub open spec fn keys_rest(s: Seq<char>, p: int) -> Seq<(Tree, Option<Seq<char>>)> {
    match spec_keys(s, p) {
        Some((ks, f)) => ks,
        None => Seq::empty(),
    }
}

/// Where the keys from `p` on end, where they are well formed.
pub open spec fn keys_end(s: Seq<char>, p: int) -> int {
    match spec_keys(s, p) {
        Some((ks, f)) => f,
        None => p,
    }
}

/// The grouping keys `keys` have the shapes and alias names `ks`.
pub open spec fn keys_are(s: Seq<char>, ks: Seq<(Tree, Option<Seq<char>>)>, keys: Seq<AstNode<GroupKey>>) -> bool {
    &&& keys.len() == ks.len()
    &&& forall|i: int| 0 <= i < ks.len() ==> tree_is(s, (#[trigger] ks[i]).0, *keys[i].node.expr) && alias_is(
        keys[i].node.as_alias,
        ks[i].1,
    )
}

/// Parser of the keys after `GROUP BY`.
pub struct GroupByClauseParser<'p> {
    chain: &'p ExprChain,
}

impl<'p> GroupByClauseParser<'p> {
    pub fn new(chain: &'p ExprChain) -> (r: Self) {
        GroupByClauseParser { chain }
    }

    /// Parse the grouping keys at `pos`; no grouping strategy and no
    /// group alias.
    pub fn parse(&self, s: &[char], pos: usize, pctx: &mut ParseContext) -> (r: Result<
        (Box<AstNode<GroupByExpr>>, usize),
        ParseError,
    >)
        requires
            pos <= s@.len(),
        ensures
            old(pctx).next() <= final(pctx).next(),
            r matches Ok((g, p)) ==> {
                &&& pos < p <= s@.len()
                &&& ids_within(group_key_ids(g.node.keys@).insert(g.id.0 as nat), old(pctx).next(), final(pctx).next())
                &&& g.node.keys.len() >= 1
                &&& g.node.strategy is None
            },
            match lone_atom_end(s@, pos as int) {
                Some(e) => !char_at(s@, e, ',') && old(pctx).next() + 2 < u32::MAX ==> (r matches Ok((g, p))
                    && p == e && g.node.keys@.len() == 1 && g.node.keys@[0].node.as_alias is None && atom_is(
                    s@,
                    skip_space(s@, pos as int),
                    *g.node.keys@[0].node.expr,
                    old(pctx).next(),
                )),
                None => true,
            },
            match spec_keys(s@, pos as int) {
                Some((ks, e)) => old(pctx).next() + entries_size(ks) + 1 < u32::MAX ==> (r matches Ok((g, p)) && p == e
                    && keys_are(s@, ks, g.node.keys@) && final(pctx).next() == old(pctx).next() + entries_size(ks) + 1),
                None => true,
            },
    {
        let ghost lo = pctx.next();
        let n = s.len();
        let mut keys: Vec<AstNode<GroupKey>> = Vec::new();
        let mut p = pos;
        let ghost e: int = match lone_atom_end(s@, pos as int) {
            Some(e) => e,
            None => 0,
        };
        let ghost lone = lone_atom_end(s@, pos as int) is Some && !char_at(s@, e, ',') && lo + 2 < u32::MAX;
        proof {
            lemma_skip_space_idem(s@, pos as int);
            reveal_strlit("AS");
            if lone {
                lemma_stop_fixed(s@, e);
                lemma_no_kw_at_stop(s@, e, "AS"@);
            }
        }
        let ghost good = spec_keys(s@, pos as int) is Some;
        let ghost fits = good && lo + entries_size(keys_rest(s@, pos as int)) + 1 < u32::MAX;
        let ghost mut done: Seq<(Tree, Option<Seq<char>>)> = Seq::empty();
        proof {
            assert(done + keys_rest(s@, pos as int) =~= keys_rest(s@, pos as int));
        }
        loop
            invariant_except_break
                lone ==> p == pos && keys@.len() == 0 && pctx.next() == lo,
                fits ==> pctx.next() == lo + entries_size(done) && spec_keys(s@, p as int) is Some && spec_keys(s@, pos as int) == Some(
                    (done + keys_rest(s@, p as int), keys_end(s@, p as int)),
                ) && keys_are(s@, done, keys@),
            invariant
                good == (spec_keys(s@, pos as int) is Some),
                fits == (good && lo + entries_size(keys_rest(s@, pos as int)) + 1 < u32::MAX),
                lone_atom_end(s@, pos as int) is Some ==> lone_atom_end(s@, pos as int) == Some(e),
                lone == (lone_atom_end(s@, pos as int) == Some(e) && !char_at(s@, e, ',') && lo + 2 < u32::MAX),
                lone ==> stop_at(s@, e) && skip_space(s@, e) == e && spec_alias(s@, e) is None
                    && lone_atom_end(s@, skip_space(s@, pos as int)) == Some(e) && skip_space(
                    s@,
                    skip_space(s@, pos as int),
                ) == skip_space(s@, pos as int),
                n == s@.len(),
                pos <= p <= s@.len(),
                keys@.len() > 0 ==> pos < p,
                lo == old(pctx).next(),
                lo <= pctx.next(),
                ids_within(group_key_ids(keys@), lo, pctx.next()),
            ensures
                pos < p <= s@.len(),
                lo <= pctx.next(),
                ids_within(group_key_ids(keys@), lo, pctx.next()),
                keys@.len() >= 1,
                lone ==> p == e && keys@.len() == 1 && keys@[0].node.as_alias is None && atom_is(
                    s@,
                    skip_space(s@, pos as int),
                    *keys@[0].node.expr,
                    lo,
                ) && pctx.next() == lo + 2,
                fits ==> pctx.next() == lo + entries_size(done) && spec_keys(s@, pos as int) == Some((done, p as int)) && keys_are(
                    s@,
                    done,
                    keys@,
                ),
            decreases s@.len() - p,
        {
            let ghost p_old = p;
            let q = ws0(s, p);
            let ghost t = match spec_bp(s@, q as int, 0) {
                Some((t, e)) => t,
                None => Tree::Atom(0),
            };
            proof {
                if fits {
                    let rest = keys_rest(s@, p as int);
                    lemma_entries_size_first(rest);
                    lemma_entries_size_concat(done, rest);
                }
            }
            let (expr, q1) = self.chain.parse_expr(s, q, pctx)?;
            let q2 = ws0(s, q1);
            let (as_alias, q3) = match alias(s, q2) {
                Some((name, e)) => (Some(symbol(name)), e),
                None => (None, q1),
            };
            let ghost e_ids = expr_ids(expr);
            let key = pctx.node(GroupKey { expr: Box::new(expr), as_alias })?;
            let ghost before = keys@;
            keys.push(key);
            proof {
                assert(keys@.drop_last() =~= before);
            }
            let q4 = ws0(s, q3);
            proof {
                let a = match spec_alias(s@, q2 as int) {
                    Some((v, e)) => Some(v),
                    None => None,
                };
                let x = (t, a);
                if fits {
                    lemma_entries_size_push(done, x);
                    assert(alias_is(keys@.last().node.as_alias, a));
                    assert forall|i: int| 0 <= i < done.push(x).len() implies tree_is(s@, (#[trigger] done.push(x)[i]).0, *keys@[i].node.expr)
                        && alias_is(keys@[i].node.as_alias, done.push(x)[i].1) by {
                        if i < done.len() {
                            assert(keys@[i] == before[i]);
                        }
                    }
                    if p_old < q4 && char_at(s@, q4 as int, ',') {
                        assert(done + (seq![x] + keys_rest(s@, q4 + 1)) =~= done.push(x) + keys_rest(s@, q4 + 1));
                    } else {
                        assert(done + seq![x] =~= done.push(x));
                    }
                }
                done = done.push(x);
            }
            match ch(s, q4, ',') {
                Some(q5) => {
                    p = q5;
                },
                None => {
                    p = q3;
                    break ;
                },
            }
        }
        let node = pctx.node(GroupByExpr { strategy: None, keys, group_as_alias: None })?;
        Ok((Box::new(node), p))
    }
}

} // verus!
