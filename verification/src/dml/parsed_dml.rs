//! DML parsed in one pass into ready-to-use parts: the table name as a
//! string, the values as expressions, and the optional `ON CONFLICT`.
//!
//! ```text
//! dml    ::= INSERT INTO table bag [on_conflict]
//!          | REPLACE INTO table bag
//!          | UPSERT INTO table bag
//!          | DELETE FROM table [alias] [WHERE expr]
//! bag    ::= '<<' [expr (',' expr)*] '>>'
//! ```
use crate::ast::{expr_ids, exprs_ids, ids_within, on_conflict_ids, Expr, OnConflict};
use crate::dml::on_conflict::{spec_on_conflict_start, OnConflictParser};
use crate::expr::{lemma_stop_fixed, lone_atom_end, ExprChain};
use crate::identifier::{
    identifier, identifier_with_case, lemma_identifier_advances, spec_identifier,
};
use crate::parse_context::{ParseContext, ParseError};
use crate::text::{ch, char_at, kw, kw_at, kw_ws, lemma_skip_space_idem, lit, lit_at, skip_space, spec_kw_ws, ws0};
use vstd::prelude::*;

verus! {

/// A DML statement with its table name and values.
#[derive(Debug)]
pub enum ParsedDml {
    Insert(InsertOp),
    InsertOnConflict(InsertOnConflictOp),
    Replace(ReplaceOp),
    Upsert(UpsertOp),
    Delete(DeleteOp),
}

#[derive(Debug)]
pub struct InsertOp {
    pub table_name: String,
    pub values: Vec<Expr>,
}

#[derive(Debug)]
pub struct InsertOnConflictOp {
    pub table_name: String,
    pub values: Vec<Expr>,
    pub on_conflict: OnConflict,
}

#[derive(Debug)]
pub struct ReplaceOp {
    pub table_name: String,
    pub values: Vec<Expr>,
}

#[derive(Debug)]
pub struct UpsertOp {
    pub table_name: String,
    pub values: Vec<Expr>,
}

#[derive(Debug)]
pub struct DeleteOp {
    pub table_name: String,
    pub where_clause: Option<Expr>,
}

/// The ids of all nodes in a parsed statement.
pub open spec fn parsed_dml_ids(d: ParsedDml) -> Set<nat> {
    match d {
        ParsedDml::Insert(op) => exprs_ids(op.values@),
        ParsedDml::InsertOnConflict(op) => exprs_ids(op.values@).union(on_conflict_ids(op.on_conflict)),
        ParsedDml::Replace(op) => exprs_ids(op.values@),
        ParsedDml::Upsert(op) => exprs_ids(op.values@),
        ParsedDml::Delete(op) => match op.where_clause {
            Some(e) => expr_ids(e),
            None => Set::empty(),
        },
    }
}

/// The table name of a parsed statement.
pub open spec fn table_of(d: ParsedDml) -> Seq<char> {
    match d {
        ParsedDml::Insert(op) => op.table_name@,
        ParsedDml::InsertOnConflict(op) => op.table_name@,
        ParsedDml::Replace(op) => op.table_name@,
        ParsedDml::Upsert(op) => op.table_name@,
        ParsedDml::Delete(op) => op.table_name@,
    }
}

/// Keyword `a`, blanks, keyword `b`, blanks, at `q`: the position after.
pub open spec fn two_words(s: Seq<char>, q: int, a: Seq<char>, b: Seq<char>) -> Option<int> {
    match spec_kw_ws(s, q, a) {
        Some(x) => spec_kw_ws(s, x, b),
        None => None,
    }
}

/// Which statement the keywords at `p` (after blanks) announce:
/// 0 `INSERT INTO`, 1 `REPLACE INTO`, 2 `UPSERT INTO`, 3 `DELETE FROM`,
/// with the position after them; none when no statement starts there.
pub open spec fn spec_dml_start(s: Seq<char>, p: int) -> Option<(int, int)> {
    let q = skip_space(s, p);
    match two_words(s, q, "INSERT"@, "INTO"@) {
        Some(e) => Some((0, e)),
        None => match two_words(s, q, "REPLACE"@, "INTO"@) {
            Some(e) => Some((1, e)),
            None => match two_words(s, q, "UPSERT"@, "INTO"@) {
                Some(e) => Some((2, e)),
                None => match two_words(s, q, "DELETE"@, "FROM"@) {
                    Some(e) => Some((3, e)),
                    None => None,
                },
            },
        },
    }
}

/// `d` is the statement kind numbered `k` in [`spec_dml_start`].
pub open spec fn kind_matches(d: ParsedDml, k: int) -> bool {
    if k == 0 {
        d is Insert || d is InsertOnConflict
    } else if k == 1 {
        d is Replace
    } else if k == 2 {
        d is Upsert
    } else {
        d is Delete
    }
}

/// A plain bag at `pos` (after blanks): `<< >>`, or `<<` and one atom
/// standing alone before `>>`. The position after `>>`, and how many
/// values it holds.
pub open spec fn plain_bag(s: Seq<char>, pos: int) -> Option<(int, nat)> {
    let p0 = skip_space(s, pos);
    let p1 = skip_space(s, p0 + 2);
    if lit_at(s, p0, "<<"@) {
        if lit_at(s, p1, ">>"@) {
            Some((p1 + 2, 0))
        } else {
            match lone_atom_end(s, p1) {
                Some(e) => if lit_at(s, e, ">>"@) {
                    Some((e + 2, 1))
                } else {
                    None
                },
                None => None,
            }
        }
    } else {
        None
    }
}

/// A table name at `pos` followed by a plain bag: the bag's end and size.
pub open spec fn plain_table_bag(s: Seq<char>, pos: int) -> Option<(int, nat)> {
    match spec_identifier(s, pos) {
        Some((t, q)) => plain_bag(s, q),
        None => None,
    }
}

/// Where the `WHERE` of a `DELETE` would stand, after the table at `pos`
/// and its optional alias.
pub open spec fn delete_where_pos(s: Seq<char>, q: int) -> int {
    let p2 = skip_space(s, q);
    let p3 = if kw_at(s, p2, "WHERE"@) {
        p2
    } else {
        match spec_identifier(s, p2) {
            Some((a, e)) => e,
            None => p2,
        }
    };
    skip_space(s, p3)
}

/// Where a plain statement of kind `k` (see [`spec_dml_start`]) whose
/// table stands at `q` ends: a table and a plain bag (and, for `INSERT`,
/// no `ON CONFLICT`), or a `DELETE` with at most an alias and a `WHERE`
/// on one atom.
pub open spec fn dml_plain_end(s: Seq<char>, k: int, q: int) -> Option<int> {
    if k == 0 {
        match plain_table_bag(s, q) {
            Some((e, n)) => if spec_on_conflict_start(s, e) is None {
                Some(skip_space(s, e))
            } else {
                None
            },
            None => None,
        }
    } else if k == 1 || k == 2 {
        match plain_table_bag(s, q) {
            Some((e, n)) => Some(e),
            None => None,
        }
    } else {
        match spec_identifier(s, q) {
            Some((t, q1)) => match spec_kw_ws(s, delete_where_pos(s, q1), "WHERE"@) {
                None => Some(delete_where_pos(s, q1)),
                Some(c) => lone_atom_end(s, c),
            },
            None => None,
        }
    }
}

/// Parser of DML statements into [`ParsedDml`].
pub struct DmlQueryParser<'p> {
    chain: &'p ExprChain,
}

impl<'p> DmlQueryParser<'p> {
    pub fn new(chain: &'p ExprChain) -> (r: Self) {
        DmlQueryParser { chain }
    }

    /// Parse a DML statement at `pos`; none when the input does not start
    /// with `INSERT INTO`, `REPLACE INTO`, `UPSERT INTO` or `DELETE FROM`.
    pub fn parse(&self, s: &[char], pos: usize, pctx: &mut ParseContext) -> (r: Option<
        Result<(ParsedDml, usize), ParseError>,
    >)
        requires
            pos <= s@.len(),
        ensures
            old(pctx).next() <= final(pctx).next(),
            r is None <==> spec_dml_start(s@, pos as int) is None,
            r matches Some(Ok((d, p))) ==> {
                &&& pos < p <= s@.len()
                &&& ids_within(parsed_dml_ids(d), old(pctx).next(), final(pctx).next())
                &&& spec_dml_start(s@, pos as int) matches Some((k, q))
                &&& kind_matches(d, k)
                &&& spec_identifier(s@, q) matches Some((t, e)) && table_of(d) == t
            },
            match spec_dml_start(s@, pos as int) {
                Some((k, q)) => match dml_plain_end(s@, k, q) {
                    Some(e) => old(pctx).next() < u32::MAX ==> (r matches Some(Ok((d, p))) && p == e && kind_matches(
                        d,
                        k,
                    )),
                    None => true,
                },
                None => true,
            },
    {
        let p0 = ws0(s, pos);
        if let Some(a) = kw_ws(s, p0, "INSERT") {
            if let Some(q) = kw_ws(s, a, "INTO") {
                return Some(self.parse_insert(s, q, pctx));
            }
        }
        if let Some(a) = kw_ws(s, p0, "REPLACE") {
            if let Some(q) = kw_ws(s, a, "INTO") {
                return Some(self.parse_replace(s, q, pctx));
            }
        }
        if let Some(a) = kw_ws(s, p0, "UPSERT") {
            if let Some(q) = kw_ws(s, a, "INTO") {
                return Some(self.parse_upsert(s, q, pctx));
            }
        }
        if let Some(a) = kw_ws(s, p0, "DELETE") {
            if let Some(q) = kw_ws(s, a, "FROM") {
                return Some(self.parse_delete(s, q, pctx));
            }
        }
        None
    }

    /// The table name at `pos`: an identifier, quoted or not.
    fn parse_table_name(&self, s: &[char], pos: usize) -> (r: Result<(String, usize), ParseError>)
        requires
            pos <= s@.len(),
        ensures
            match r {
                Ok((t, p)) => spec_identifier(s@, pos as int) == Some((t@, p as int)) && pos < p
                    <= s@.len(),
                Err(e) => spec_identifier(s@, pos as int) is None && e == ParseError::Backtrack,
            },
    {
        let (name, _quoted, p) = identifier_with_case(s, pos)?;
        Ok((name, p))
    }

    /// `<<e1, e2, ...>>` after optional blanks at `pos`: the expressions.
    fn parse_bag_values(&self, s: &[char], pos: usize, pctx: &mut ParseContext) -> (r: Result<
        (Vec<Expr>, usize),
        ParseError,
    >)
        requires
            pos <= s@.len(),
        ensures
            old(pctx).next() <= final(pctx).next(),
            r matches Ok((v, p)) ==> pos < p <= s@.len() && ids_within(
                exprs_ids(v@),
                old(pctx).next(),
                final(pctx).next(),
            ) && lit_at(s@, skip_space(s@, pos as int), "<<"@),
            !lit_at(s@, skip_space(s@, pos as int), "<<"@) ==> r == Err::<(Vec<Expr>, usize), ParseError>(
                ParseError::Backtrack),
            match plain_bag(s@, pos as int) {
                Some((e, k)) => old(pctx).next() < u32::MAX ==> (r matches Ok((v, p)) && p == e && v@.len() == k
                    && final(pctx).next() == old(pctx).next() + k),
                None => true,
            },
    {
        proof {
            reveal_strlit("<<");
            reveal_strlit(">>");
        }
        let ghost lo = pctx.next();
        let n = s.len();
        let p0 = ws0(s, pos);
        let p1 = match lit(s, p0, "<<") {
            Some(p1) => ws0(s, p1),
            None => {
                return Err(ParseError::Backtrack);
            },
        };
        let mut values: Vec<Expr> = Vec::new();
        if let Some(q) = lit(s, p1, ">>") {
            proof {
                assert(exprs_ids(values@) =~= Set::<nat>::empty());
            }
            return Ok((values, q));
        }
        let mut p = p1;
        let ghost e: int = match lone_atom_end(s@, p1 as int) {
            Some(e) => e,
            None => 0,
        };
        let ghost lone = plain_bag(s@, pos as int) is Some && lo < u32::MAX;
        proof {
            lemma_skip_space_idem(s@, p0 + 2);
            if lone {
                lemma_stop_fixed(s@, e);
                assert(s@.subrange(e, e + 2)[0] == s@[e]);
            }
        }
        loop
            invariant_except_break
                lone ==> p == p1 && values@.len() == 0 && pctx.next() == lo,
            invariant
                lone == (plain_bag(s@, pos as int) is Some && lo < u32::MAX),
                lone ==> lone_atom_end(s@, p1 as int) == Some(e) && lit_at(s@, e, ">>"@) && skip_space(s@, e) == e
                    && !char_at(s@, e, ',') && skip_space(s@, p1 as int) == p1 && plain_bag(s@, pos as int) == Some(
                    (e + 2, 1nat),
                ),
                n == s@.len(),
                lit_at(s@, skip_space(s@, pos as int), "<<"@),
                pos < p <= s@.len(),
                lo == old(pctx).next(),
                lo <= pctx.next(),
                ids_within(exprs_ids(values@), lo, pctx.next()),
            ensures
                pos < p <= s@.len(),
                lo <= pctx.next(),
                ids_within(exprs_ids(values@), lo, pctx.next()),
                lone ==> p == e && values@.len() == 1 && pctx.next() == lo + 1,
            decreases s@.len() - p,
        {
            let q = ws0(s, p);
            let (e, q2) = self.chain.parse_expr(s, q, pctx)?;
            let ghost before = values@;
            values.push(e);
            proof {
                assert(values@.drop_last() =~= before);
            }
            let q3 = ws0(s, q2);
            match ch(s, q3, ',') {
                Some(q4) => {
                    p = q4;
                },
                None => {
                    p = q3;
                    break ;
                },
            }
        }
        let q = ws0(s, p);
        match lit(s, q, ">>") {
            Some(q2) => Ok((values, q2)),
            None => Err(ParseError::Backtrack),
        }
    }

    /// `table bag [ON CONFLICT ...]` after `INSERT INTO`.
    fn parse_insert(&self, s: &[char], pos: usize, pctx: &mut ParseContext) -> (r: Result<
        (ParsedDml, usize),
        ParseError,
    >)
        requires
            pos <= s@.len(),
        ensures
            old(pctx).next() <= final(pctx).next(),
            r matches Ok((d, p)) ==> {
                &&& pos < p <= s@.len()
                &&& ids_within(parsed_dml_ids(d), old(pctx).next(), final(pctx).next())
                &&& d is Insert || d is InsertOnConflict
                &&& spec_identifier(s@, pos as int) matches Some((t, e)) && table_of(d) == t
            },
            spec_identifier(s@, pos as int) is None ==> r == Err::<(ParsedDml, usize), ParseError>(
                ParseError::Backtrack),
            match plain_table_bag(s@, pos as int) {
                Some((e, k)) => old(pctx).next() < u32::MAX && spec_on_conflict_start(s@, e) is None ==> (r matches Ok(
                    (d, p),
                ) && d is Insert && p == skip_space(s@, e)),
                None => true,
            },
    {
        let ghost lo = pctx.next();
        let (table_name, p1) = self.parse_table_name(s, pos)?;
        let (values, p2) = self.parse_bag_values(s, p1, pctx)?;
        let ghost mid = pctx.next();
        let p3 = ws0(s, p2);
        match OnConflictParser::new(self.chain.pratt()).parse(s, p3, pctx) {
            Ok((on_conflict, p4)) => {
                proof {
                    crate::ast::lemma_ids_widen(exprs_ids(values@), lo, mid, pctx.next());
                }
                Ok((ParsedDml::InsertOnConflict(InsertOnConflictOp { table_name, values, on_conflict }), p4))
            },
            Err(ParseError::Backtrack) => Ok((ParsedDml::Insert(InsertOp { table_name, values }), p3)),
            Err(e) => Err(e),
        }
    }

    /// `table bag` after `REPLACE INTO`.
    fn parse_replace(&self, s: &[char], pos: usize, pctx: &mut ParseContext) -> (r: Result<
        (ParsedDml, usize),
        ParseError,
    >)
        requires
            pos <= s@.len(),
        ensures
            old(pctx).next() <= final(pctx).next(),
            r matches Ok((d, p)) ==> {
                &&& pos < p <= s@.len()
                &&& ids_within(parsed_dml_ids(d), old(pctx).next(), final(pctx).next())
                &&& d is Replace
                &&& spec_identifier(s@, pos as int) matches Some((t, e)) && table_of(d) == t
            },
            spec_identifier(s@, pos as int) is None ==> r == Err::<(ParsedDml, usize), ParseError>(
                ParseError::Backtrack),
            match plain_table_bag(s@, pos as int) {
                Some((e, k)) => old(pctx).next() < u32::MAX ==> (r matches Ok((d, p)) && p == e),
                None => true,
            },
    {
        let (table_name, p1) = self.parse_table_name(s, pos)?;
        let (values, p2) = self.parse_bag_values(s, p1, pctx)?;
        Ok((ParsedDml::Replace(ReplaceOp { table_name, values }), p2))
    }

    /// `table bag` after `UPSERT INTO`.
    fn parse_upsert(&self, s: &[char], pos: usize, pctx: &mut ParseContext) -> (r: Result<
        (ParsedDml, usize),
        ParseError,
    >)
        requires
            pos <= s@.len(),
        ensures
            old(pctx).next() <= final(pctx).next(),
            r matches Ok((d, p)) ==> {
                &&& pos < p <= s@.len()
                &&& ids_within(parsed_dml_ids(d), old(pctx).next(), final(pctx).next())
                &&& d is Upsert
                &&& spec_identifier(s@, pos as int) matches Some((t, e)) && table_of(d) == t
            },
            spec_identifier(s@, pos as int) is None ==> r == Err::<(ParsedDml, usize), ParseError>(
                ParseError::Backtrack),
            match plain_table_bag(s@, pos as int) {
                Some((e, k)) => old(pctx).next() < u32::MAX ==> (r matches Ok((d, p)) && p == e),
                None => true,
            },
    {
        let (table_name, p1) = self.parse_table_name(s, pos)?;
        let (values, p2) = self.parse_bag_values(s, p1, pctx)?;
        Ok((ParsedDml::Upsert(UpsertOp { table_name, values }), p2))
    }

    /// `table [alias] [WHERE condition]` after `DELETE FROM`. A word after
    /// the table is its alias, unless it is `WHERE`.
    fn parse_delete(&self, s: &[char], pos: usize, pctx: &mut ParseContext) -> (r: Result<
        (ParsedDml, usize),
        ParseError,
    >)
        requires
            pos <= s@.len(),
        ensures
            old(pctx).next() <= final(pctx).next(),
            r matches Ok((d, p)) ==> {
                &&& pos < p <= s@.len()
                &&& ids_within(parsed_dml_ids(d), old(pctx).next(), final(pctx).next())
                &&& d is Delete
                &&& spec_identifier(s@, pos as int) matches Some((t, e)) && table_of(d) == t
            },
            match spec_identifier(s@, pos as int) {
                None => r == Err::<(ParsedDml, usize), ParseError>(ParseError::Backtrack),
                Some((t, q)) => match spec_kw_ws(s@, delete_where_pos(s@, q), "WHERE"@) {
                    None => r matches Ok((ParsedDml::Delete(d), p)) && p == delete_where_pos(s@, q)
                        && d.where_clause is None,
                    Some(c) => lone_atom_end(s@, c) is Some && old(pctx).next() < u32::MAX ==> (r matches Ok(
                        (ParsedDml::Delete(d), p),
                    ) && d.where_clause is Some && Some(p as int) == lone_atom_end(s@, c)),
                },
            },
    {
        let (table_name, p1) = self.parse_table_name(s, pos)?;
        let p2 = ws0(s, p1);
        proof {
            lemma_identifier_advances(s@, p2 as int);
        }
        let p3 = if kw(s, p2, "WHERE").is_some() {
            p2
        } else {
            match identifier(s, p2) {
                Ok((_, q)) => q,
                Err(_) => p2,
            }
        };
        let p4 = ws0(s, p3);
        let (where_clause, p5) = match kw_ws(s, p4, "WHERE") {
            Some(q) => {
                let (e, q2) = self.chain.parse_expr(s, q, pctx)?;
                (Some(e), q2)
            },
            None => (None, p4),
        };
        Ok((ParsedDml::Delete(DeleteOp { table_name, where_clause }), p5))
    }
}

} // verus!
