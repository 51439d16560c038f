//! Expression parsing: a Pratt parser over binding powers, with primary
//! expressions, literals and the comparison special forms.
//!
//! Every expression parser takes the input chars `s`, a position `pos`
//! and the parse's [`ParseContext`]. On success it returns the expression
//! and the position just past it; that position is always beyond `pos`,
//! and every node of the result has an id that was handed out during the
//! call. The context's counter never goes down.
pub mod add_sub_strategy;
pub mod and_strategy;
pub mod comparison;
pub mod comparison_strategy;
pub mod infix;
pub mod mul_div_strategy;
pub mod not_strategy;
pub mod or_strategy;
pub mod postfix_strategy;
pub mod pratt;
pub mod primary_strategy;
pub mod unary_strategy;

use crate::ast::{expr_ids, ids_within, AstNode, CaseSensitivity, Expr, Lit, ScopeQualifier};
use crate::literal::ion::number::spec_ion_number;
use crate::literal::ion::string::spec_sql_string;
use crate::identifier::{lemma_identifier_start, spec_identifier, spec_quoted_identifier};
use crate::expr::infix::spec_peek_infix;
use crate::expr::pratt::{binary_atoms, binary_atoms_is};
use crate::literal::boolean_strategy::boolean_end;
use crate::literal::null_strategy::null_missing_end;
use crate::literal::number_strategy::{number_end, number_lit_ok};
use crate::literal::string_strategy::{is_string_lit, string_end};
use crate::literal::text_of;
use crate::parse_context::{ParseContext, ParseError};
use crate::text::{
    caseless_at, char_at, in_class, is_digit, is_space, kw_at, lemma_skip_space, lemma_skip_space_idem,
    skip_space, CharClass,
};
use vstd::prelude::*;

verus! {

/// An expression parsed from `s` at `pos`, with all node ids in `[lo, hi)`.
pub open spec fn expr_parsed(
    s: Seq<char>,
    pos: int,
    lo: nat,
    hi: nat,
    r: Result<(Expr, usize), ParseError>,
) -> bool {
    r matches Ok((e, p)) ==> pos < p <= s.len() && ids_within(expr_ids(e), lo, hi)
}

/// Where an expression stops: the end of the input, `)`, `]`, `}`, `,`,
/// or the `>>` that closes a bag.
pub open spec fn stop_at(s: Seq<char>, p: int) -> bool {
    ||| p == s.len()
    ||| 0 <= p < s.len() && (s[p] == ')' || s[p] == ']' || s[p] == '}' || s[p] == ',')
    ||| 0 <= p && p + 1 < s.len() && s[p] == '>' && s[p + 1] == '>'
}

/// End of the literal at `p`: a SQL string when `'` stands there, a
/// number when a digit does.
pub open spec fn literal_end(s: Seq<char>, p: int) -> Option<int> {
    if char_at(s, p, '\'') {
        string_end(s, p)
    } else if 0 <= p < s.len() && is_digit(s[p]) {
        number_end(s, p)
    } else {
        None
    }
}

/// `l` is the literal that stands at `p`.
pub open spec fn literal_at(s: Seq<char>, p: int, l: Lit) -> bool {
    if char_at(s, p, '\'') {
        is_string_lit(l, text_of(spec_sql_string(s, p)))
    } else {
        number_lit_ok(l, spec_ion_number(s, p))
    }
}

/// An identifier at `p` that is read as a variable reference: not one
/// of the words that begin another form (`NULL`, `MISSING`, `TRUE`,
/// `FALSE`, `CASE`, `NOT`), and no `(` follows it. The position after the
/// blanks that follow the identifier.
pub open spec fn var_ref_end(s: Seq<char>, p: int) -> Option<int> {
    match spec_identifier(s, p) {
        Some((name, q)) => if null_missing_end(s, p) is None && boolean_end(s, p) is None && !kw_at(
            s,
            p,
            "CASE"@,
        ) && !kw_at(s, p, "NOT"@) && !char_at(s, skip_space(s, q), '(') {
            Some(skip_space(s, q))
        } else {
            None
        },
        None => None,
    }
}

/// End of the atom at `p`: a literal, or an identifier read as a
/// variable reference.
pub open spec fn atom_end(s: Seq<char>, p: int) -> Option<int> {
    match literal_end(s, p) {
        Some(q) => Some(q),
        None => var_ref_end(s, p),
    }
}

/// `x` is the atom at `p`, as a node with id `next`: the literal that
/// stands there, or an unqualified variable reference to the identifier
/// there, case-sensitive exactly when the identifier is quoted.
pub open spec fn atom_is(s: Seq<char>, p: int, x: Expr, next: nat) -> bool {
    match literal_end(s, p) {
        Some(q) => x matches Expr::Lit(l) && l.id.0 == next && literal_at(s, p, l.node),
        None => match spec_identifier(s, p) {
            Some((name, q)) => x matches Expr::VarRef(v) && v.id.0 == next && v.node.name.value@ == name
                && v.node.qualifier == ScopeQualifier::Unqualified && v.node.name.case == (if spec_quoted_identifier(
                s,
                p,
            ) is Some {
                CaseSensitivity::CaseSensitive
            } else {
                CaseSensitivity::CaseInsensitive
            }),
            None => false,
        },
    }
}

/// An atom at `pos` (after blanks) is read as that atom, a node with id
/// `next`, whenever an id is left; it is the only node made (`fin`
/// is the next id after the call).
pub open spec fn atom_parsed(
    s: Seq<char>,
    pos: int,
    next: nat,
    fin: nat,
    r: Result<(Expr, usize), ParseError>,
) -> bool {
    let p = skip_space(s, pos);
    match atom_end(s, p) {
        Some(q) => next < u32::MAX ==> (r matches Ok((x, e)) && e == q && atom_is(s, p, x, next) && fin == next
            + 1),
        None => true,
    }
}

/// An atom at `pos` (after blanks) that stands alone: blanks follow it,
/// then the end of the input, a closing `)`, `]`, `}` or `,`, or `>>`. The
/// position of that stop.
pub open spec fn lone_atom_end(s: Seq<char>, pos: int) -> Option<int> {
    match atom_end(s, skip_space(s, pos)) {
        Some(q) => if stop_at(s, skip_space(s, q)) {
            Some(skip_space(s, q))
        } else {
            None
        },
        None => None,
    }
}

/// An atom standing alone at `pos` is a whole expression: it is read as
/// that atom, a node with id `next`, ending at the stop, whenever an id
/// is left; it is the only node made (`fin` is the next id after the
/// call).
pub open spec fn lone_atom_parsed(
    s: Seq<char>,
    pos: int,
    next: nat,
    fin: nat,
    r: Result<(Expr, usize), ParseError>,
) -> bool {
    match lone_atom_end(s, pos) {
        Some(e) => next < u32::MAX ==> (r matches Ok((x, p)) && p == e && atom_is(s, skip_space(s, pos), x, next)
            && fin == next + 1),
        None => true,
    }
}

/// Where an atom stands alone at `pos`, the char at `pos` is a blank or
/// the atom's own first char, and no `NOT` stands at `pos`.
pub proof fn lemma_lone_start(s: Seq<char>, pos: int)
    requires
        0 <= pos <= s.len(),
    ensures
        lone_atom_end(s, pos) is Some ==> pos < s.len() && s[pos] != '-' && s[pos] != '+' && !kw_at(
            s,
            pos,
            "NOT"@,
        ),
{
    lemma_skip_space(s, pos);
    if lone_atom_end(s, pos) is Some {
        if pos < skip_space(s, pos) {
            assert(in_class(s[pos], CharClass::Space));
            reveal_strlit("NOT");
            if caseless_at(s, pos, "NOT"@) {
                assert(crate::text::eq_ignore_case(s[pos + 0], "NOT"@[0]));
            }
        } else {
            lemma_atom_start(s, pos);
        }
    }
}

/// An atom begins with `'`, a digit, `"`, a letter or `_`, and is not `NOT`.
pub proof fn lemma_atom_start(s: Seq<char>, p: int)
    requires
        atom_end(s, p) is Some,
    ensures
        0 <= p < s.len(),
        s[p] != '-' && s[p] != '+' && !is_space(s[p]),
        s[p] != '[' && s[p] != '<',
        !kw_at(s, p, "NOT"@),
{
    reveal_strlit("NOT");
    if literal_end(s, p) is Some {
        if caseless_at(s, p, "NOT"@) {
            assert(crate::text::eq_ignore_case(s[p + 0], "NOT"@[0]));
        }
    } else {
        lemma_identifier_start(s, p);
    }
}

/// An expression ends at `e`: no infix operator, special form or path
/// step begins there.
pub open spec fn expr_ends_at(s: Seq<char>, e: int) -> bool {
    spec_peek_infix(s, e) is None && !char_at(s, e, '.') && !char_at(s, e, '[')
}

/// An atom at `pos` (after blanks) that makes a whole expression: after
/// it and its blanks the expression ends. The position after the blanks.
pub open spec fn atom_then_end(s: Seq<char>, pos: int) -> Option<int> {
    match atom_end(s, skip_space(s, pos)) {
        Some(q) => if expr_ends_at(s, skip_space(s, q)) {
            Some(skip_space(s, q))
        } else {
            None
        },
        None => None,
    }
}

/// An atom that makes a whole expression at `pos` is read as that atom,
/// a node with id `next`, ending after its blanks, whenever an id is
/// left; it is the only node made.
pub open spec fn atom_then_parsed(
    s: Seq<char>,
    pos: int,
    next: nat,
    fin: nat,
    r: Result<(Expr, usize), ParseError>,
) -> bool {
    match atom_then_end(s, pos) {
        Some(e) => next < u32::MAX ==> (r matches Ok((x, p)) && p == e && atom_is(s, skip_space(s, pos), x, next)
            && fin == next + 1),
        None => true,
    }
}

/// Blanks are already skipped where an atom-expression ends, and reading
/// it from after the blanks before it changes nothing.
pub proof fn lemma_atom_then_fixed(s: Seq<char>, pos: int)
    ensures
        atom_then_end(s, pos) matches Some(e) ==> skip_space(s, e) == e,
        atom_then_end(s, skip_space(s, pos)) == atom_then_end(s, pos),
        skip_space(s, skip_space(s, pos)) == skip_space(s, pos),
{
    if 0 <= pos <= s.len() {
        lemma_skip_space_idem(s, pos);
    }
    match atom_end(s, skip_space(s, pos)) {
        Some(q) => {
            if 0 <= q <= s.len() {
                lemma_skip_space_idem(s, q);
            }
        },
        None => {},
    }
}

/// An atom standing alone is an atom that makes a whole expression.
pub proof fn lemma_lone_ends(s: Seq<char>, pos: int)
    ensures
        lone_atom_end(s, pos) is Some ==> atom_then_end(s, pos) == lone_atom_end(s, pos),
{
}

/// No blank stands at a stop, and no identifier begins there.
pub proof fn lemma_stop_fixed(s: Seq<char>, p: int)
    requires
        stop_at(s, p),
    ensures
        skip_space(s, p) == p,
        spec_identifier(s, p) is None,
{
    lemma_identifier_start(s, p);
}

/// No keyword stands at a stop.
pub proof fn lemma_no_kw_at_stop(s: Seq<char>, p: int, k: Seq<char>)
    requires
        stop_at(s, p),
        k.len() > 0,
        ('A' <= k[0] <= 'Z'),
    ensures
        !kw_at(s, p, k),
{
    if caseless_at(s, p, k) {
        assert(crate::text::eq_ignore_case(s[p + 0], k[0]));
    }
}

/// Every id in `ids` is in `base` or in `[lo, hi)`.
pub open spec fn ids_within_or(ids: Set<nat>, base: Set<nat>, lo: nat, hi: nat) -> bool {
    forall|i: nat| #[trigger] ids.contains(i) ==> base.contains(i) || (lo <= i < hi)
}

/// Outcome of a parser that extends an already parsed `left` operand:
/// on success the new expression; on a mismatch `left` handed back
/// unchanged; `None` in place of `left` only when node ids ran out.
pub open spec fn extends_left(
    s: Seq<char>,
    pos: int,
    left: Expr,
    lo: nat,
    hi: nat,
    r: Result<(Expr, usize), (Option<Expr>, ParseError)>,
) -> bool {
    match r {
        Ok((e, p)) => pos < p <= s.len() && ids_within_or(expr_ids(e), expr_ids(left), lo, hi),
        Err((Some(l), _)) => l == left,
        Err((None, e)) => e == ParseError::NodeIdsExhausted,
    }
}

/// A precedence level of the expression grammar: parses an expression of
/// its level at `pos`.
pub trait ExprStrategy {
    fn parse(&self, ctx: &StrategyContext, s: &[char], pos: usize, pctx: &mut ParseContext) -> (r: Result<
        (Expr, usize),
        ParseError,
    >)
        requires
            pos <= s@.len(),
        ensures
            old(pctx).next() <= final(pctx).next(),
            expr_parsed(s@, pos as int, old(pctx).next(), final(pctx).next(), r),
    ;
}

/// Context handed to the expression strategies: the Pratt parser they
/// delegate to.
pub struct StrategyContext<'c> {
    pub pratt: &'c pratt::PrattParser,
}

impl<'c> StrategyContext<'c> {
    pub fn new(pratt: &'c pratt::PrattParser) -> (r: Self)
        ensures
            r.pratt == pratt,
    {
        StrategyContext { pratt }
    }

    /// Parse a sub-expression that stops before `AND` and `OR`
    /// (minimum binding power 5).
    pub fn parse_next_level(&self, s: &[char], pos: usize, pctx: &mut ParseContext) -> (r: Result<
        (Expr, usize),
        ParseError,
    >)
        requires
            pos <= s@.len(),
        ensures
            old(pctx).next() <= final(pctx).next(),
            expr_parsed(s@, pos as int, old(pctx).next(), final(pctx).next(), r),
            lone_atom_parsed(s@, pos as int, old(pctx).next(), final(pctx).next(), r),
            r matches Ok((e, p)) ==> p == skip_space(s@, p as int) && pratt::stops_at(s@, p as int, 5),
            pratt::tree_parsed(s@, pos as int, 5, old(pctx).next() as nat, final(pctx).next() as nat, r),
    {
        self.pratt.parse_bp(s, pos, pctx, 5)
    }

    /// Parse a full expression.
    pub fn parse_expr(&self, s: &[char], pos: usize, pctx: &mut ParseContext) -> (r: Result<
        (Expr, usize),
        ParseError,
    >)
        requires
            pos <= s@.len(),
        ensures
            old(pctx).next() <= final(pctx).next(),
            expr_parsed(s@, pos as int, old(pctx).next(), final(pctx).next(), r),
            lone_atom_parsed(s@, pos as int, old(pctx).next(), final(pctx).next(), r),
            match binary_atoms(s@, pos as int, 0) {
                Some((k, a, e)) => old(pctx).next() + 3 < u32::MAX ==> (r matches Ok((x, p)) && p == e
                    && binary_atoms_is(s@, pos as int, k, a, x, old(pctx).next()) && final(pctx).next()
                    == old(pctx).next() + 3),
                None => true,
            },
            pratt::tree_parsed(s@, pos as int, 0, old(pctx).next() as nat, final(pctx).next() as nat, r),
    {
        self.pratt.parse_expr(s, pos, pctx)
    }

    /// Create an AST node with a fresh id.
    pub fn node<T>(&self, pctx: &mut ParseContext, value: T) -> (r: Result<AstNode<T>, ParseError>)
        ensures
            old(pctx).next() < u32::MAX ==> (r matches Ok(n) && n.id.0 == old(pctx).next()
                && n.node == value && final(pctx).next() == old(pctx).next() + 1),
            old(pctx).next() >= u32::MAX ==> (r == Err::<AstNode<T>, ParseError>(
                ParseError::NodeIdsExhausted) && final(pctx).next() == old(pctx).next()),
    {
        pctx.node(value)
    }
}

/// Expression parser: delegates to the Pratt parser.
pub struct ExprChain {
    pratt: pratt::PrattParser,
}

impl ExprChain {
    pub fn new() -> (r: Self) {
        ExprChain { pratt: pratt::PrattParser::new() }
    }

    /// Parse a full expression.
    pub fn parse_expr(&self, s: &[char], pos: usize, pctx: &mut ParseContext) -> (r: Result<
        (Expr, usize),
        ParseError,
    >)
        requires
            pos <= s@.len(),
        ensures
            old(pctx).next() <= final(pctx).next(),
            expr_parsed(s@, pos as int, old(pctx).next(), final(pctx).next(), r),
            lone_atom_parsed(s@, pos as int, old(pctx).next(), final(pctx).next(), r),
            match binary_atoms(s@, pos as int, 0) {
                Some((k, a, e)) => old(pctx).next() + 3 < u32::MAX ==> (r matches Ok((x, p)) && p == e
                    && binary_atoms_is(s@, pos as int, k, a, x, old(pctx).next()) && final(pctx).next()
                    == old(pctx).next() + 3),
                None => true,
            },
            pratt::tree_parsed(s@, pos as int, 0, old(pctx).next() as nat, final(pctx).next() as nat, r),
    {
        self.pratt.parse_expr(s, pos, pctx)
    }

    /// The underlying Pratt parser.
    pub fn pratt(&self) -> &pratt::PrattParser {
        &self.pratt
    }
}

} // verus!
