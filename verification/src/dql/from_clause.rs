//! `FROM` clause: a source, then any number of joins.
//!
//! ```text
//! from_clause ::= from_source join*
//! from_source ::= expr [[AS] alias] [AT alias]
//! join        ::= ',' from_source
//!               | [INNER] JOIN from_source [ON expr]
//!               | LEFT [OUTER] JOIN from_source [ON expr]
//!               | RIGHT [OUTER] JOIN from_source [ON expr]
//!               | FULL [OUTER] JOIN from_source [ON expr]
//!               | CROSS JOIN from_source
//! ```
//! Joins associate to the left: `a, b, c` is `(a, b), c`.
use crate::ast::{
    expr_ids, from_ids, ids_within, AstNode, CaseSensitivity, FromClause, FromLet, FromSource,
    SymbolPrimitive,
};
use crate::dql::{alias, spec_alias};
use crate::expr::pratt::{spec_bp, tree_is, tree_size, Tree};
use crate::identifier::spec_identifier;
use crate::dql::join::comma_join::CommaJoinParser;
use crate::dql::join::cross_join::CrossJoinParser;
use crate::dql::join::full_join::FullJoinParser;
use crate::dql::join::inner_join::InnerJoinParser;
use crate::dql::join::left_join::LeftJoinParser;
use crate::dql::join::right_join::RightJoinParser;
use crate::expr::{atom_is, lemma_no_kw_at_stop, lemma_stop_fixed, lone_atom_end, ExprChain};
use crate::identifier::identifier;
use crate::parse_context::{ParseContext, ParseError};
use crate::text::{char_at, kw_ws, skip_space, spec_kw_ws, ws0};
use vstd::prelude::*;

verus! {

/// A source parsed from `s` at `pos`, with all node ids in `[lo, hi)`.
pub open spec fn source_parsed(
    s: Seq<char>,
    pos: int,
    lo: nat,
    hi: nat,
    r: Result<(FromSource, usize), ParseError>,
) -> bool {
    r matches Ok((f, p)) ==> pos < p <= s.len() && ids_within(from_ids(f), lo, hi)
}

/// `f` is the atom at `p` as a source without aliases, the atom's node
/// with id `next`.
pub open spec fn atom_source(s: Seq<char>, p: int, f: FromSource, next: nat) -> bool {
    match f {
        FromSource::FromLet(n) => n.node.as_alias is None && n.node.at_alias is None && atom_is(s, p, *n.node.expr, next),
        _ => false,
    }
}

/// A `FROM` source at `pos`: an expression in the operator grammar,
/// then an optional `[AS] alias` and an optional `AT alias`; the
/// expression's shape, the two alias names and where the source ends.
pub open spec fn source_shape(s: Seq<char>, pos: int) -> Option<(Tree, Option<Seq<char>>, Option<Seq<char>>, int)> {
    match spec_bp(s, pos, 0) {
        Some((t, p1)) => {
            let (as_name, p3) = match spec_alias(s, skip_space(s, p1)) {
                Some((v, e)) => (Some(v), e),
                None => (None, p1),
            };
            match spec_kw_ws(s, skip_space(s, p3), "AT"@) {
                Some(q) => match spec_identifier(s, q) {
                    Some((v, e)) => Some((t, as_name, Some(v), e)),
                    None => Some((t, as_name, None, p3)),
                },
                None => Some((t, as_name, None, p3)),
            }
        },
        None => None,
    }
}

/// The alias `a` carries the name `name`, or is absent where no name is.
pub open spec fn alias_is(a: Option<SymbolPrimitive>, name: Option<Seq<char>>) -> bool {
    match name {
        Some(v) => a matches Some(x) && x.value@ == v && x.case == CaseSensitivity::CaseInsensitive,
        None => a is None,
    }
}

/// `f` is the source of [`source_shape`]: a `FromLet` whose expression
/// has the shape `t` and whose aliases carry the names given.
pub open spec fn source_is(s: Seq<char>, f: FromSource, t: Tree, as_name: Option<Seq<char>>, at_name: Option<Seq<char>>) -> bool {
    match f {
        FromSource::FromLet(n) => tree_is(s, t, *n.node.expr) && alias_is(n.node.as_alias, as_name) && alias_is(
            n.node.at_alias,
            at_name,
        ),
        _ => false,
    }
}

/// A case-insensitive name.
pub fn symbol(value: String) -> (r: SymbolPrimitive)
    ensures
        r.value == value,
        r.case == CaseSensitivity::CaseInsensitive,
{
    SymbolPrimitive { value, case: CaseSensitivity::CaseInsensitive }
}

/// One `FROM` source: an expression with optional `AS` and `AT` aliases.
pub fn parse_source(chain: &ExprChain, s: &[char], pos: usize, pctx: &mut ParseContext) -> (r: Result<
    (FromSource, usize),
    ParseError,
>)
    requires
        pos <= s@.len(),
    ensures
        old(pctx).next() <= final(pctx).next(),
        source_parsed(s@, pos as int, old(pctx).next(), final(pctx).next(), r),
        r matches Ok((f, p)) ==> f is FromLet,
        match lone_atom_end(s@, pos as int) {
            Some(e) => old(pctx).next() + 1 < u32::MAX ==> (r matches Ok((f, p)) && p == e && atom_source(
                s@,
                skip_space(s@, pos as int),
                f,
                old(pctx).next(),
            ) && final(pctx).next() == old(pctx).next() + 2),
            None => true,
        },
        match source_shape(s@, pos as int) {
            Some((t, a1, a2, e)) => old(pctx).next() + tree_size(t) + 1 < u32::MAX ==> (r matches Ok((f, p))
                && p == e && source_is(s@, f, t, a1, a2) && final(pctx).next() == old(pctx).next() + tree_size(t)
                + 1),
            None => true,
        },
{
    let ghost lo = pctx.next();
    let (expr, p1) = chain.parse_expr(s, pos, pctx)?;
    proof {
        if lone_atom_end(s@, pos as int) is Some && lo + 1 < u32::MAX {
            reveal_strlit("AS");
            reveal_strlit("AT");
            lemma_stop_fixed(s@, p1 as int);
            lemma_no_kw_at_stop(s@, p1 as int, "AS"@);
            lemma_no_kw_at_stop(s@, p1 as int, "AT"@);
        }
    }
    let p2 = ws0(s, p1);
    let (as_alias, p3) = match alias(s, p2) {
        Some((name, e)) => (Some(symbol(name)), e),
        None => (None, p1),
    };
    let p4 = ws0(s, p3);
    let (at_alias, p5) = match kw_ws(s, p4, "AT") {
        Some(q) => match identifier(s, q) {
            Ok((name, e)) => (Some(symbol(name)), e),
            Err(_) => (None, p3),
        },
        None => (None, p3),
    };
    let ghost e_ids = expr_ids(expr);
    let node = pctx.node(FromLet { expr: Box::new(expr), as_alias, at_alias })?;
    let ghost nid = node.id.0 as nat;
    let f = FromSource::FromLet(node);
    proof {
        assert(from_ids(f) =~= set![nid].union(e_ids));
    }
    Ok((f, p5))
}

/// Parser of the `FROM` clause.
pub struct FromClauseParser<'p> {
    chain: &'p ExprChain,
}

impl<'p> FromClauseParser<'p> {
    pub fn new(chain: &'p ExprChain) -> (r: Self) {
        FromClauseParser { chain }
    }

    /// Parse the sources and joins of a `FROM` clause at `pos`.
    pub fn parse(&self, s: &[char], pos: usize, pctx: &mut ParseContext) -> (r: Result<
        (AstNode<FromClause>, usize),
        ParseError,
    >)
        requires
            pos <= s@.len(),
        ensures
            old(pctx).next() <= final(pctx).next(),
            r matches Ok((c, p)) ==> pos < p <= s@.len() && ids_within(
                from_ids(c.node.source).insert(c.id.0 as nat),
                old(pctx).next(),
                final(pctx).next(),
            ),
            match lone_atom_end(s@, pos as int) {
                Some(e) => !char_at(s@, e, ',') && old(pctx).next() + 2 < u32::MAX ==> (r matches Ok((c, p)) && p
                    == e && atom_source(s@, skip_space(s@, pos as int), c.node.source, old(pctx).next())
                    && final(pctx).next() == old(pctx).next() + 3),
                None => true,
            },
    {
        let ghost lo = pctx.next();
        let n = s.len();
        let (mut source, mut p) = parse_source(self.chain, s, pos, pctx)?;
        let ghost e: int = match lone_atom_end(s@, pos as int) {
            Some(e) => e,
            None => 0,
        };
        let ghost lone = lone_atom_end(s@, pos as int) is Some && !char_at(s@, e, ',') && lo + 2 < u32::MAX;
        let ghost source0 = source;
        proof {
            if lone {
                reveal_strlit("JOIN");
                reveal_strlit("INNER");
                reveal_strlit("LEFT");
                reveal_strlit("RIGHT");
                reveal_strlit("FULL");
                reveal_strlit("CROSS");
                lemma_stop_fixed(s@, e);
                lemma_no_kw_at_stop(s@, e, "JOIN"@);
                lemma_no_kw_at_stop(s@, e, "INNER"@);
                lemma_no_kw_at_stop(s@, e, "LEFT"@);
                lemma_no_kw_at_stop(s@, e, "RIGHT"@);
                lemma_no_kw_at_stop(s@, e, "FULL"@);
                lemma_no_kw_at_stop(s@, e, "CROSS"@);
            }
        }
        loop
            invariant
                lone_atom_end(s@, pos as int) is Some ==> lone_atom_end(s@, pos as int) == Some(e),
                lone == (lone_atom_end(s@, pos as int) == Some(e) && !char_at(s@, e, ',') && lo + 2 < u32::MAX),
                lone ==> p == e && source == source0 && pctx.next() == lo + 2 && skip_space(s@, e) == e
                    && !char_at(s@, e, ',') && spec_kw_ws(s@, e, "JOIN"@) is None && spec_kw_ws(s@, e, "INNER"@)
                    is None && spec_kw_ws(s@, e, "LEFT"@) is None && spec_kw_ws(s@, e, "RIGHT"@) is None
                    && spec_kw_ws(s@, e, "FULL"@) is None && spec_kw_ws(s@, e, "CROSS"@) is None,
                lone ==> atom_source(s@, skip_space(s@, pos as int), source0, lo),
                n == s@.len(),
                pos < p <= s@.len(),
                lo == old(pctx).next(),
                lo <= pctx.next(),
                ids_within(from_ids(source), lo, pctx.next()),
            ensures
                pos < p <= s@.len(),
                lo <= pctx.next(),
                ids_within(from_ids(source), lo, pctx.next()),
                lone ==> p == e && source == source0 && pctx.next() == lo + 2,
            decreases s@.len() - p,
        {
            let q = ws0(s, p);
            match CommaJoinParser::new(self.chain).parse(s, q, pctx, source) {
                Ok((f, q2)) => {
                    source = f;
                    p = q2;
                    continue ;
                },
                Err((Some(l), ParseError::Backtrack)) => {
                    source = l;
                },
                Err((_, e)) => {
                    return Err(e);
                },
            }
            match InnerJoinParser::new(self.chain).parse(s, q, pctx, source) {
                Ok((f, q2)) => {
                    source = f;
                    p = q2;
                    continue ;
                },
                Err((Some(l), ParseError::Backtrack)) => {
                    source = l;
                },
                Err((_, e)) => {
                    return Err(e);
                },
            }
            match LeftJoinParser::new(self.chain).parse(s, q, pctx, source) {
                Ok((f, q2)) => {
                    source = f;
                    p = q2;
                    continue ;
                },
                Err((Some(l), ParseError::Backtrack)) => {
                    source = l;
                },
                Err((_, e)) => {
                    return Err(e);
                },
            }
            match RightJoinParser::new(self.chain).parse(s, q, pctx, source) {
                Ok((f, q2)) => {
                    source = f;
                    p = q2;
                    continue ;
                },
                Err((Some(l), ParseError::Backtrack)) => {
                    source = l;
                },
                Err((_, e)) => {
                    return Err(e);
                },
            }
            match FullJoinParser::new(self.chain).parse(s, q, pctx, source) {
                Ok((f, q2)) => {
                    source = f;
                    p = q2;
                    continue ;
                },
                Err((Some(l), ParseError::Backtrack)) => {
                    source = l;
                },
                Err((_, e)) => {
                    return Err(e);
                },
            }
            match CrossJoinParser::new(self.chain).parse(s, q, pctx, source) {
                Ok((f, q2)) => {
                    source = f;
                    p = q2;
                    continue ;
                },
                Err((Some(l), ParseError::Backtrack)) => {
                    source = l;
                },
                Err((_, e)) => {
                    return Err(e);
                },
            }
            break ;
        }
        let ghost src_ids = from_ids(source);
        let node = pctx.node(FromClause { source })?;
        Ok((node, p))
    }
}

} // verus!
