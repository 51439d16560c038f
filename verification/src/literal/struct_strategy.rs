//! Struct constructor: `{key: value, key: value, ...}`.
//!
//! ```text
//! struct  ::= '{' pair (',' pair)* '}'
//!           | '{' '}'
//! pair    ::= key ':' value
//! ```
//!
//! Keys are always string literals, whether written `'key'`, `"key"` or
//! `key`. A double-quoted value is a string literal too (Ion style);
//! any other value is an expression.
use crate::ast::{ids_within, pair_ids, Expr, ExprPair, Lit, Struct};
use crate::expr::expr_parsed;
use crate::expr::pratt::{spec_bp, tree_is, tree_parsed, tree_size, PrattParser, Tree};
use crate::identifier::{
    lemma_identifier_advances, quoted_identifier, spec_quoted_identifier,
    spec_unquoted_identifier, unquoted_identifier,
};
use crate::literal::ion::string::{lemma_sql_body_advances, spec_sql_string, sql_string};
use crate::literal::{lit_outcome, text_of};
use crate::literal::string_strategy::is_string_lit;
use crate::parse_context::{ParseContext, ParseError};
use crate::text::{ch, char_at, skip_space, starts_with_char, ws0};
use crate::expr::StrategyContext;
use crate::literal::LiteralStrategy;
use vstd::prelude::*;

verus! {

/// The text of the struct key at `pos` and its end: a SQL string, a
/// double-quoted name or a bare name.
pub open spec fn spec_struct_key(s: Seq<char>, pos: int) -> Option<(Seq<char>, int)> {
    if char_at(s, pos, '\'') {
        spec_sql_string(s, pos)
    } else if char_at(s, pos, '"') {
        spec_quoted_identifier(s, pos)
    } else {
        spec_unquoted_identifier(s, pos)
    }
}

/// End of the struct key at `pos`.
pub open spec fn struct_key_end(s: Seq<char>, pos: int) -> Option<int> {
    match spec_struct_key(s, pos) {
        Some((t, q)) => Some(q),
        None => None,
    }
}

/// The shape of a struct value: a double-quoted text, or an expression.
pub enum ValueShape {
    Text(Seq<char>),
    Value(Tree),
}

/// The struct value at `q`: a double-quoted text, or an expression in
/// the operator grammar; its shape and end.
pub open spec fn struct_value_shape(s: Seq<char>, q: int) -> Option<(ValueShape, int)> {
    if char_at(s, q, '"') {
        match spec_quoted_identifier(s, q) {
            Some((t, e)) => Some((ValueShape::Text(t), e)),
            None => None,
        }
    } else {
        match spec_bp(s, q, 0) {
            Some((t, e)) => Some((ValueShape::Value(t), e)),
            None => None,
        }
    }
}

/// Comma-separated `key: value` pairs from `p` on, the last followed by
/// `}`: each key's text and value's shape, and the position after `}`.
pub open spec fn spec_pairs(s: Seq<char>, p: int) -> Option<(Seq<(Seq<char>, ValueShape)>, int)>
    decreases s.len() - p,
{
    let q = skip_space(s, p);
    match spec_struct_key(s, q) {
        Some((k, q1)) => {
            let q2 = skip_space(s, q1);
            if p <= q && char_at(s, q2, ':') {
                match struct_value_shape(s, skip_space(s, q2 + 1)) {
                    Some((v, q5)) => {
                        let q6 = skip_space(s, q5);
                        if p < q6 && char_at(s, q6, ',') {
                            match spec_pairs(s, q6 + 1) {
                                Some((ps, f)) => Some((seq![(k, v)] + ps, f)),
                                None => None,
                            }
                        } else if char_at(s, q6, '}') {
                            Some((seq![(k, v)], q6 + 1))
                        } else {
                            None
                        }
                    },
                    None => None,
                }
            } else {
                None
            }
        },
        None => None,
    }
}

/// The pairs from `p` on, where they are well formed.
pub open spec fn pairs_rest(s: Seq<char>, p: int) -> Seq<(Seq<char>, ValueShape)> {
    match spec_pairs(s, p) {
        Some((ps, f)) => ps,
        None => Seq::empty(),
    }
}

/// Where the pairs from `p` on end, where they are well formed.
pub open spec fn pairs_end(s: Seq<char>, p: int) -> int {
    match spec_pairs(s, p) {
        Some((ps, f)) => f,
        None => p,
    }
}

/// The struct at `pos`: `{`, then `}` at once or the pairs of
/// [`spec_pairs`]; the pairs and where the struct ends.
pub open spec fn struct_shape(s: Seq<char>, pos: int) -> Option<(Seq<(Seq<char>, ValueShape)>, int)> {
    let p2 = skip_space(s, pos + 1);
    if char_at(s, pos, '{') {
        if char_at(s, p2, '}') {
            Some((Seq::empty(), p2 + 1))
        } else {
            spec_pairs(s, p2)
        }
    } else {
        None
    }
}

/// The field `f` is the pair `kv`: its key a string literal of the key's
/// text; its value a string literal of the text, or of the value's shape.
pub open spec fn pair_is(s: Seq<char>, kv: (Seq<char>, ValueShape), f: ExprPair) -> bool {
    &&& (*f.first matches Expr::Lit(l) && is_string_lit(l.node, kv.0))
    &&& match kv.1 {
        ValueShape::Text(t) => *f.second matches Expr::Lit(l) && is_string_lit(l.node, t),
        ValueShape::Value(tr) => tree_is(s, tr, *f.second),
    }
}

/// The fields are the pairs, one for one.
pub open spec fn pairs_are(s: Seq<char>, ps: Seq<(Seq<char>, ValueShape)>, fields: Seq<ExprPair>) -> bool {
    &&& fields.len() == ps.len()
    &&& forall|i: int| 0 <= i < ps.len() ==> pair_is(s, #[trigger] ps[i], fields[i])
}

/// How many nodes a pair of shape `kv` takes: its key, and its value's
/// literal or expression.
pub open spec fn pair_size(kv: (Seq<char>, ValueShape)) -> nat {
    1 + match kv.1 {
        ValueShape::Text(t) => 1,
        ValueShape::Value(tr) => tree_size(tr),
    }
}

/// How many nodes the pairs `ps` take.
pub open spec fn pairs_size(ps: Seq<(Seq<char>, ValueShape)>) -> nat
    decreases ps.len(),
{
    if ps.len() == 0 {
        0
    } else {
        pairs_size(ps.subrange(0, ps.len() - 1)) + pair_size(ps[ps.len() - 1])
    }
}

/// The size of pairs read in two parts is the sum of the parts' sizes.
proof fn lemma_pairs_size_concat(a: Seq<(Seq<char>, ValueShape)>, b: Seq<(Seq<char>, ValueShape)>)
    ensures
        pairs_size(a + b) == pairs_size(a) + pairs_size(b),
    decreases b.len(),
{
    if b.len() == 0 {
        assert(a + b =~= a);
    } else {
        let b0 = b.subrange(0, b.len() - 1);
        lemma_pairs_size_concat(a, b0);
        assert((a + b).subrange(0, (a + b).len() - 1) =~= a + b0);
    }
}

/// One more pair adds its size.
proof fn lemma_pairs_size_push(ps: Seq<(Seq<char>, ValueShape)>, kv: (Seq<char>, ValueShape))
    ensures
        pairs_size(ps.push(kv)) == pairs_size(ps) + pair_size(kv),
        pairs_size(seq![kv]) == pair_size(kv),
{
    assert(ps.push(kv).subrange(0, ps.len() as int) =~= ps);
    let none = Seq::<(Seq<char>, ValueShape)>::empty();
    assert(none.push(kv).subrange(0, 0) =~= none);
    assert(pairs_size(none) == 0);
    assert(seq![kv] =~= none.push(kv));
    assert(pairs_size(none.push(kv)) == pairs_size(none) + pair_size(kv));
}

/// Strategy for struct constructors.
pub struct StructConstructorStrategy;

impl StructConstructorStrategy {
    /// Parse `{k1: v1, k2: v2, ...}` at `pos` into a `Struct` of pairs.
    pub fn parse(&self, pratt: &PrattParser, s: &[char], pos: usize, pctx: &mut ParseContext) -> (r:
        Result<(Expr, usize), ParseError>)
        requires
            pos <= s@.len(),
        ensures
            old(pctx).next() <= final(pctx).next(),
            expr_parsed(s@, pos as int, old(pctx).next(), final(pctx).next(), r),
            !char_at(s@, pos as int, '{') ==> r == Err::<(Expr, usize), ParseError>(ParseError::Backtrack),
            r matches Ok((e, p)) ==> e matches Expr::Struct(_) && s@[p - 1] == '}',
            match struct_shape(s@, pos as int) {
                Some((ps, e)) => old(pctx).next() + pairs_size(ps) + 1 < u32::MAX ==> (r matches Ok((Expr::Struct(st), p))
                    && p == e && pairs_are(s@, ps, st.node.fields@) && final(pctx).next() == old(pctx).next()
                    + pairs_size(ps) + 1),
                None => true,
            },
        decreases s@.len() - pos, 2nat,
    {
        let ghost lo = pctx.next();
        let ghost good = struct_shape(s@, pos as int) is Some;
        let n = s.len();
        let p1 = match ch(s, pos, '{') {
            Some(p1) => p1,
            None => {
                return Err(ParseError::Backtrack);
            },
        };
        let p2 = ws0(s, p1);
        let mut fields: Vec<ExprPair> = Vec::new();
        if let Some(q) = ch(s, p2, '}') {
            proof {
                assert(pair_ids(fields@) =~= Set::<nat>::empty());
            }
            let node = pctx.node(Struct { fields })?;
            return Ok((Expr::Struct(node), q));
        }
        let mut p = p2;
        let ghost fits = good && lo + pairs_size(pairs_rest(s@, p2 as int)) + 1 < u32::MAX;
        let ghost mut done: Seq<(Seq<char>, ValueShape)> = Seq::empty();
        proof {
            assert(done + pairs_rest(s@, p as int) =~= pairs_rest(s@, p as int));
        }
        loop
            invariant_except_break
                fits ==> spec_pairs(s@, p as int) is Some && spec_pairs(s@, p2 as int)
                    == Some((done + pairs_rest(s@, p as int), pairs_end(s@, p as int))) && pairs_are(
                    s@,
                    done,
                    fields@,
                ) && pctx.next() == lo + pairs_size(done),
            invariant
                good == (struct_shape(s@, pos as int) is Some),
                fits == (good && lo + pairs_size(pairs_rest(s@, p2 as int)) + 1 < u32::MAX),
                !char_at(s@, p2 as int, '}'),
                p2 == skip_space(s@, pos + 1),
                n == s@.len(),
                char_at(s@, pos as int, '{'),
                pos < p <= s@.len(),
                lo == old(pctx).next(),
                lo <= pctx.next(),
                ids_within(pair_ids(fields@), lo, pctx.next()),
            ensures
                pos < p <= s@.len(),
                lo <= pctx.next(),
                ids_within(pair_ids(fields@), lo, pctx.next()),
                fits ==> char_at(s@, p as int, '}') && p == skip_space(s@, p as int)
                    && spec_pairs(s@, p2 as int) == Some((done, p + 1)) && pairs_are(s@, done, fields@)
                    && pctx.next() == lo + pairs_size(done),
            decreases s@.len() - p,
        {
            let ghost p_old = p;
            let q = ws0(s, p);
            proof {
                crate::text::lemma_skip_space_idem(s@, p as int);
                if fits {
                    let rest = pairs_rest(s@, p as int);
                    assert(rest.len() > 0);
                    assert(rest =~= seq![rest[0]] + rest.subrange(1, rest.len() as int));
                    lemma_pairs_size_concat(seq![rest[0]], rest.subrange(1, rest.len() as int));
                    lemma_pairs_size_push(Seq::empty(), rest[0]);
                    lemma_pairs_size_concat(done, rest);
                }
            }
            let (key, q1) = parse_struct_key(s, q, pctx)?;
            let q2 = ws0(s, q1);
            let q3 = match ch(s, q2, ':') {
                Some(q3) => q3,
                None => {
                    return Err(ParseError::Backtrack);
                },
            };
            let q4 = ws0(s, q3);
            let (value, q5) = parse_struct_value(pratt, s, q4, pctx)?;
            let ghost before = fields@;
            let ghost kv = match spec_struct_key(s@, q as int) {
                Some((k, q1)) => match struct_value_shape(s@, q4 as int) {
                    Some((v, e)) => (k, v),
                    None => (k, ValueShape::Text(Seq::empty())),
                },
                None => (Seq::empty(), ValueShape::Text(Seq::empty())),
            };
            fields.push(ExprPair { first: Box::new(key), second: Box::new(value) });
            proof {
                assert(fields@.drop_last() =~= before);
            }
            let q6 = ws0(s, q5);
            proof {
                if fits {
                    lemma_pairs_size_push(done, kv);
                    crate::text::lemma_skip_space_idem(s@, q5 as int);
                    assert(pair_is(s@, kv, fields@.last()));
                    assert forall|i: int| 0 <= i < done.push(kv).len() implies pair_is(
                        s@,
                        #[trigger] done.push(kv)[i],
                        fields@[i],
                    ) by {
                        if i < done.len() {
                            assert(before[i] == fields@[i]);
                        }
                    }
                    if char_at(s@, q6 as int, ',') {
                        assert(done + (seq![kv] + pairs_rest(s@, q6 + 1)) =~= done.push(kv) + pairs_rest(s@, q6 + 1));
                    } else {
                        assert(done + seq![kv] =~= done.push(kv));
                    }
                }
                done = done.push(kv);
            }
            match ch(s, q6, ',') {
                Some(q7) => {
                    p = q7;
                },
                None => {
                    p = q6;
                    break ;
                },
            }
        }
        let q = ws0(s, p);
        let q2 = match ch(s, q, '}') {
            Some(q2) => q2,
            None => {
                return Err(ParseError::Backtrack);
            },
        };
        let node = pctx.node(Struct { fields })?;
        Ok((Expr::Struct(node), q2))
    }
}

/// A struct key at `pos`, always as a string literal: `'key'`, `"key"`
/// or `key`.
pub fn parse_struct_key(s: &[char], pos: usize, pctx: &mut ParseContext) -> (r: Result<
    (Expr, usize),
    ParseError,
>)
    requires
        pos <= s@.len(),
    ensures
        old(pctx).next() <= final(pctx).next(),
        expr_parsed(s@, pos as int, old(pctx).next(), final(pctx).next(), r),
        lit_outcome(
            r,
            old(pctx).next(),
            struct_key_end(s@, pos as int),
            |l: Lit| is_string_lit(l, text_of(spec_struct_key(s@, pos as int))),
        ),
        r is Ok ==> final(pctx).next() == old(pctx).next() + 1,
{
    proof {
        lemma_identifier_advances(s@, pos as int);
        if char_at(s@, pos as int, '\'') {
            lemma_sql_body_advances(s@, pos + 1);
        }
    }
    let (text, p) = if starts_with_char(s, pos, '\'') {
        sql_string(s, pos)?
    } else if starts_with_char(s, pos, '"') {
        quoted_identifier(s, pos)?
    } else {
        unquoted_identifier(s, pos)?
    };
    let node = pctx.node(Lit::CharStringLit(text))?;
    Ok((Expr::Lit(node), p))
}

/// A struct value at `pos`: a double-quoted text is a string literal;
/// anything else is an expression.
pub fn parse_struct_value(pratt: &PrattParser, s: &[char], pos: usize, pctx: &mut ParseContext) -> (r:
    Result<(Expr, usize), ParseError>)
    requires
        pos <= s@.len(),
    ensures
        old(pctx).next() <= final(pctx).next(),
        expr_parsed(s@, pos as int, old(pctx).next(), final(pctx).next(), r),
        !char_at(s@, pos as int, '"') ==> tree_parsed(s@, pos as int, 0, old(pctx).next() as nat, final(pctx).next() as nat, r),
        char_at(s@, pos as int, '"') ==> lit_outcome(
            r,
            old(pctx).next(),
            match spec_quoted_identifier(s@, pos as int) {
                Some((t, q)) => Some(q),
                None => None,
            },
            |l: Lit| is_string_lit(l, text_of(spec_quoted_identifier(s@, pos as int))),
        ),
        char_at(s@, pos as int, '"') && r is Ok ==> final(pctx).next() == old(pctx).next() + 1,
    decreases s@.len() - pos, 8nat,
{
    proof {
        lemma_identifier_advances(s@, pos as int);
    }
    if starts_with_char(s, pos, '"') {
        let (text, p) = quoted_identifier(s, pos)?;
        let node = pctx.node(Lit::CharStringLit(text))?;
        return Ok((Expr::Lit(node), p));
    }
    pratt.parse_expr(s, pos, pctx)
}

impl LiteralStrategy for StructConstructorStrategy {
    fn parse(&self, ctx: &StrategyContext, s: &[char], pos: usize, pctx: &mut ParseContext) -> (r: Result<
        (Expr, usize),
        ParseError,
    >) {
        StructConstructorStrategy::parse(self, ctx.pratt, s, pos, pctx)
    }
}

} // verus!
