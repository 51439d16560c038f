//! DML statements: `INSERT`, `REPLACE`, `UPSERT`, `UPDATE`, `DELETE`.
//!
//! Each statement kind has its own strategy; [`DmlParser`] tries them in
//! turn and returns the first that matches.
pub mod delete_strategy;
pub mod insert_strategy;
pub mod on_conflict;
pub mod parsed_dml;
pub mod replace_strategy;
pub mod update_strategy;
pub mod upsert_strategy;

use crate::ast::{dml_ids, ids_within, Dml, DmlOp};
use crate::expr::pratt::{opt_size, spec_bp, tree_is, tree_size, Tree};
use crate::expr::ExprChain;
use crate::parse_context::{ParseContext, ParseError};
use crate::text::{caseless_at, eq_ignore_case, skip_space, spec_kw_ws};
use vstd::prelude::*;

verus! {

/// A DML statement form: parses its statement at `pos`, or backtracks.
pub trait DmlStrategy {
    fn parse(&self, s: &[char], pos: usize, pctx: &mut ParseContext) -> (r: Result<(Dml, usize), ParseError>)
        requires
            pos <= s@.len(),
        ensures
            old(pctx).next() <= final(pctx).next(),
            dml_parsed(s@, pos as int, old(pctx).next(), final(pctx).next(), r),
    ;
}

/// `word INTO target values` after blanks at `pos` (`word` is `INSERT`,
/// `REPLACE` or `UPSERT`), target and values in the operator grammar:
/// their shapes and where the statement ends.
pub open spec fn insert_shape(s: Seq<char>, pos: int, word: Seq<char>) -> Option<(Tree, Tree, int)> {
    match spec_kw_ws(s, skip_space(s, pos), word) {
        Some(q) => match spec_kw_ws(s, q, "INTO"@) {
            Some(q2) => match spec_bp(s, q2, 0) {
                Some((target, p2)) => match spec_bp(s, skip_space(s, p2), 0) {
                    Some((values, p4)) => Some((target, values, p4)),
                    None => None,
                },
                None => None,
            },
            None => None,
        },
        None => None,
    }
}

/// Where `shape` is given and the node ids last for both expressions
/// (`lo` is the counter before, `hi` after), `r` is the insert of that
/// target and those values, with no `FROM` and no `WHERE`, ending where
/// the shape ends, with the ids of both expressions taken.
pub open spec fn insert_built(s: Seq<char>, shape: Option<(Tree, Tree, int)>, lo: nat, hi: nat, r: Result<(Dml, usize), ParseError>) -> bool {
    match shape {
        Some((target, values, e)) => lo + tree_size(target) + tree_size(values) < u32::MAX ==> (r matches Ok((d, p))
            && p == e && hi == lo + tree_size(target) + tree_size(values) && d.from_clause is None
            && d.where_clause is None && match d.op {
            DmlOp::Insert(ins) => tree_is(s, target, *ins.target) && tree_is(s, values, *ins.values),
            _ => false,
        }),
        None => true,
    }
}

/// A statement parsed from `s` at `pos`, with all node ids in `[lo, hi)`.
pub open spec fn dml_parsed(
    s: Seq<char>,
    pos: int,
    lo: nat,
    hi: nat,
    r: Result<(Dml, usize), ParseError>,
) -> bool {
    r matches Ok((d, p)) ==> pos < p <= s.len() && ids_within(dml_ids(d), lo, hi)
}

/// At most one of the statement words stands at `p`.
proof fn lemma_dml_words(s: Seq<char>, p: int)
    ensures
        spec_kw_ws(s, p, "INSERT"@) is Some ==> spec_kw_ws(s, p, "REPLACE"@) is None && spec_kw_ws(s, p, "UPSERT"@)
            is None && spec_kw_ws(s, p, "UPDATE"@) is None && spec_kw_ws(s, p, "DELETE"@) is None,
        spec_kw_ws(s, p, "REPLACE"@) is Some ==> spec_kw_ws(s, p, "INSERT"@) is None && spec_kw_ws(s, p, "UPSERT"@)
            is None && spec_kw_ws(s, p, "UPDATE"@) is None && spec_kw_ws(s, p, "DELETE"@) is None,
        spec_kw_ws(s, p, "UPSERT"@) is Some ==> spec_kw_ws(s, p, "INSERT"@) is None && spec_kw_ws(s, p, "REPLACE"@)
            is None && spec_kw_ws(s, p, "UPDATE"@) is None && spec_kw_ws(s, p, "DELETE"@) is None,
        spec_kw_ws(s, p, "UPDATE"@) is Some ==> spec_kw_ws(s, p, "INSERT"@) is None && spec_kw_ws(s, p, "REPLACE"@)
            is None && spec_kw_ws(s, p, "UPSERT"@) is None && spec_kw_ws(s, p, "DELETE"@) is None,
        spec_kw_ws(s, p, "DELETE"@) is Some ==> spec_kw_ws(s, p, "INSERT"@) is None && spec_kw_ws(s, p, "REPLACE"@)
            is None && spec_kw_ws(s, p, "UPSERT"@) is None && spec_kw_ws(s, p, "UPDATE"@) is None,
{
    reveal_strlit("DELETE");
    reveal_strlit("INSERT");
    reveal_strlit("REPLACE");
    reveal_strlit("UPSERT");
    reveal_strlit("UPDATE");
    if caseless_at(s, p, "INSERT"@) {
        assert(eq_ignore_case(s[p + 0], "INSERT"@[0]));
    }
    if caseless_at(s, p, "REPLACE"@) {
        assert(eq_ignore_case(s[p + 0], "REPLACE"@[0]));
    }
    if caseless_at(s, p, "UPSERT"@) {
        assert(eq_ignore_case(s[p + 0], "UPSERT"@[0]));
        assert(eq_ignore_case(s[p + 2], "UPSERT"@[2]));
    }
    if caseless_at(s, p, "UPDATE"@) {
        assert(eq_ignore_case(s[p + 0], "UPDATE"@[0]));
        assert(eq_ignore_case(s[p + 2], "UPDATE"@[2]));
    }
    if caseless_at(s, p, "DELETE"@) {
        assert(eq_ignore_case(s[p + 0], "DELETE"@[0]));
    }
}

/// Tries each DML strategy in order: `INSERT`, `REPLACE`, `UPSERT`,
/// `UPDATE`, `DELETE`.
pub struct DmlParser<'p> {
    chain: &'p ExprChain,
}

impl<'p> DmlParser<'p> {
    pub fn new(chain: &'p ExprChain) -> (r: Self) {
        DmlParser { chain }
    }

    /// The first strategy that matches at `pos`; none when every strategy
    /// backtracks.
    #[verifier::rlimit(100)]
    #[verifier::spinoff_prover]
    pub fn try_parse(&self, s: &[char], pos: usize, pctx: &mut ParseContext) -> (r: Option<
        Result<(Dml, usize), ParseError>,
    >)
        requires
            pos <= s@.len(),
        ensures
            old(pctx).next() <= final(pctx).next(),
            r matches Some(res) ==> dml_parsed(s@, pos as int, old(pctx).next(), final(pctx).next(), res),
            r matches Some(Err(e)) ==> e == ParseError::NodeIdsExhausted,
            ({
                let p = skip_space(s@, pos as int);
                spec_kw_ws(s@, p, "INSERT"@) is None && spec_kw_ws(s@, p, "REPLACE"@) is None && spec_kw_ws(
                    s@,
                    p,
                    "UPSERT"@,
                ) is None && spec_kw_ws(s@, p, "UPDATE"@) is None && spec_kw_ws(s@, p, "DELETE"@) is None
                    ==> r is None
            }),
            delete_strategy::plain_delete(s@, pos as int) is Some && old(pctx).next() + 1 < u32::MAX ==> (r matches Some(
                Ok((d, p)),
            ) && d.op is Delete),
            insert_shape(s@, pos as int, "INSERT"@) matches Some((t, v, e)) && old(pctx).next() + tree_size(t)
                + tree_size(v) < u32::MAX ==> (r matches Some(res) && insert_built(
                s@,
                insert_shape(s@, pos as int, "INSERT"@),
                old(pctx).next() as nat,
                final(pctx).next() as nat,
                res,
            )),
            insert_shape(s@, pos as int, "REPLACE"@) matches Some((t, v, e)) && old(pctx).next() + tree_size(t)
                + tree_size(v) < u32::MAX ==> (r matches Some(res) && insert_built(
                s@,
                insert_shape(s@, pos as int, "REPLACE"@),
                old(pctx).next() as nat,
                final(pctx).next() as nat,
                res,
            )),
            insert_shape(s@, pos as int, "UPSERT"@) matches Some((t, v, e)) && old(pctx).next() + tree_size(t)
                + tree_size(v) < u32::MAX ==> (r matches Some(res) && insert_built(
                s@,
                insert_shape(s@, pos as int, "UPSERT"@),
                old(pctx).next() as nat,
                final(pctx).next() as nat,
                res,
            )),
            match update_strategy::update_shape(s@, pos as int) {
                Some(u) => old(pctx).next() + update_strategy::update_size(u) < u32::MAX ==> (r matches Some(Ok((d, p)))
                    && p == u.end && d.op is Update),
                None => true,
            },
            match delete_strategy::delete_shape(s@, pos as int) {
                Some((t, a1, a2, c, e)) => old(pctx).next() + tree_size(t) + 1 + opt_size(c) < u32::MAX ==> (r matches Some(Ok((d, p))) && p == e
                    && d.op is Delete),
                None => true,
            },
    {
        proof {
            let p = skip_space(s@, pos as int);
            reveal_strlit("DELETE");
            reveal_strlit("INSERT");
            reveal_strlit("REPLACE");
            reveal_strlit("UPSERT");
            reveal_strlit("UPDATE");
            lemma_dml_words(s@, p);
            if delete_strategy::plain_delete(s@, pos as int) is Some {
                assert(eq_ignore_case(s@[p + 0], "DELETE"@[0]));
                if caseless_at(s@, p, "INSERT"@) {
                    assert(eq_ignore_case(s@[p + 0], "INSERT"@[0]));
                }
                if caseless_at(s@, p, "REPLACE"@) {
                    assert(eq_ignore_case(s@[p + 0], "REPLACE"@[0]));
                }
                if caseless_at(s@, p, "UPSERT"@) {
                    assert(eq_ignore_case(s@[p + 0], "UPSERT"@[0]));
                }
                if caseless_at(s@, p, "UPDATE"@) {
                    assert(eq_ignore_case(s@[p + 0], "UPDATE"@[0]));
                }
            }
        }
        match insert_strategy::InsertStrategy::new(self.chain).parse(s, pos, pctx) {
            Err(ParseError::Backtrack) => {},
            res => {
                return Some(res);
            },
        }
        match replace_strategy::ReplaceStrategy::new(self.chain).parse(s, pos, pctx) {
            Err(ParseError::Backtrack) => {},
            res => {
                return Some(res);
            },
        }
        match upsert_strategy::UpsertStrategy::new(self.chain).parse(s, pos, pctx) {
            Err(ParseError::Backtrack) => {},
            res => {
                return Some(res);
            },
        }
        match update_strategy::UpdateStrategy::new(self.chain).parse(s, pos, pctx) {
            Err(ParseError::Backtrack) => {},
            res => {
                return Some(res);
            },
        }
        match delete_strategy::DeleteStrategy::new(self.chain).parse(s, pos, pctx) {
            Err(ParseError::Backtrack) => {},
            res => {
                return Some(res);
            },
        }
        None
    }
}

} // verus!
