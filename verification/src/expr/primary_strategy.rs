//! Primary expressions: literals, constructors, parenthesised
//! expressions, identifiers and function calls.
//!
//! The first char picks the form: `'` string, digit number, `[` list,
//! `{` struct, `(` parenthesised expression, `<` bag, `"` quoted
//! identifier. A letter or `_` tries `CASE`, then `NULL`/`MISSING`, then
//! `TRUE`/`FALSE`; anything else is an identifier or a function call.
use crate::ast::{
    arg_ids, expr_ids, ids_within, AstNode, Call, CallAgg, CallArg, CaseSensitivity, Expr, Lit,
    ScopeQualifier, SymbolPrimitive, VarRef,
};
use crate::expr::{atom_is, atom_parsed, expr_parsed, lone_atom_end};
use crate::expr::pratt::{
    args_are, call_parsed, spec_call, constructor_parsed, paren_parsed, items_end, items_rest, items_size, lemma_items_first, lemma_items_size_concat,
    lemma_items_size_push, lemma_items_step, spec_bp, spec_items, tree_is, tree_size, PrattParser, Tree,
};
use crate::identifier::{identifier_with_case, spec_identifier, spec_quoted_identifier};
use crate::literal::bag_strategy::BagConstructorStrategy;
use crate::literal::boolean_strategy::BooleanLiteralStrategy;
use crate::literal::case_strategy::CaseExprStrategy;
use crate::literal::list_strategy::ListConstructorStrategy;
use crate::literal::null_strategy::NullMissingStrategy;
use crate::literal::ion::number::spec_ion_number;
use crate::literal::ion::string::spec_sql_string;
use crate::literal::number_strategy::{number_end, number_lit_ok, NumericLiteralStrategy};
use crate::literal::string_strategy::{is_string_lit, string_end, StringLiteralStrategy};
use crate::literal::{lit_outcome, text_of};
use crate::literal::struct_strategy::StructConstructorStrategy;
use crate::parse_context::{ParseContext, ParseError};
use crate::text::{ch, char_at, chars_eq_ignore_case, eq_ignore_case, kw, lit_at, skip_space, ws0};
use vstd::prelude::*;

verus! {

/// Primary expression parser: the bottom of the precedence ladder.
pub struct PrimaryStrategy;

/// `name` is `COUNT`, `SUM`, `AVG`, `MIN` or `MAX`, in any ASCII case.
pub open spec fn spec_is_aggregate(name: Seq<char>) -> bool {
    ||| name.len() == 5 && eq_ignore_case(name[0], 'C') && eq_ignore_case(name[1], 'O')
        && eq_ignore_case(name[2], 'U') && eq_ignore_case(name[3], 'N') && eq_ignore_case(
        name[4],
        'T',
    )
    ||| name.len() == 3 && eq_ignore_case(name[0], 'S') && eq_ignore_case(name[1], 'U')
        && eq_ignore_case(name[2], 'M')
    ||| name.len() == 3 && eq_ignore_case(name[0], 'A') && eq_ignore_case(name[1], 'V')
        && eq_ignore_case(name[2], 'G')
    ||| name.len() == 3 && eq_ignore_case(name[0], 'M') && eq_ignore_case(name[1], 'I')
        && eq_ignore_case(name[2], 'N')
    ||| name.len() == 3 && eq_ignore_case(name[0], 'M') && eq_ignore_case(name[1], 'A')
        && eq_ignore_case(name[2], 'X')
}

/// Known SQL aggregate functions: these produce `CallAgg` rather than `Call`.
pub fn is_aggregate(name: &str) -> (r: bool)
    ensures
        r == spec_is_aggregate(name@),
{
    let n = name.unicode_len();
    if n == 5 {
        chars_eq_ignore_case(name.get_char(0), 'C') && chars_eq_ignore_case(name.get_char(1), 'O')
            && chars_eq_ignore_case(name.get_char(2), 'U') && chars_eq_ignore_case(
            name.get_char(3),
            'N',
        ) && chars_eq_ignore_case(name.get_char(4), 'T')
    } else if n == 3 {
        let a = name.get_char(0);
        let b = name.get_char(1);
        let c = name.get_char(2);
        (chars_eq_ignore_case(a, 'S') && chars_eq_ignore_case(b, 'U') && chars_eq_ignore_case(
            c,
            'M',
        )) || (chars_eq_ignore_case(a, 'A') && chars_eq_ignore_case(b, 'V') && chars_eq_ignore_case(
            c,
            'G',
        )) || (chars_eq_ignore_case(a, 'M') && chars_eq_ignore_case(b, 'I') && chars_eq_ignore_case(
            c,
            'N',
        )) || (chars_eq_ignore_case(a, 'M') && chars_eq_ignore_case(b, 'A') && chars_eq_ignore_case(
            c,
            'X',
        ))
    } else {
        false
    }
}

/// `e` is a call of the function `name` with `n` arguments: an
/// aggregate call (`CallAgg`) where `name` is one of the aggregate
/// functions, a plain call otherwise.
pub open spec fn call_named(e: Expr, name: Seq<char>, n: nat) -> bool {
    if spec_is_aggregate(name) {
        e matches Expr::CallAgg(c) && c.node.func_name.value@ == name && c.node.args@.len() == n
            && c.node.func_name.case == CaseSensitivity::CaseInsensitive
    } else {
        e matches Expr::Call(c) && c.node.func_name.value@ == name && c.node.args@.len() == n
            && c.node.func_name.case == CaseSensitivity::CaseInsensitive
    }
}


/// The arguments of a call (plain or aggregate); none for anything else.
pub open spec fn call_args(e: Expr) -> Seq<AstNode<CallArg>> {
    match e {
        Expr::Call(c) => c.node.args@,
        Expr::CallAgg(c) => c.node.args@,
        _ => Seq::empty(),
    }
}

/// `Call` or `CallAgg`, by function name; the name is case-insensitive.
pub fn make_call(pctx: &mut ParseContext, name: String, args: Vec<AstNode<CallArg>>) -> (r: Result<
    Expr,
    ParseError,
>)
    ensures
        old(pctx).next() <= final(pctx).next(),
        r matches Ok(e) ==> final(pctx).next() == old(pctx).next() + 1,
        r matches Ok(e) ==> (if spec_is_aggregate(name@) {
            e matches Expr::CallAgg(c) && c.node.func_name.value@ == name@ && c.node.args == args
                && c.node.func_name.case == CaseSensitivity::CaseInsensitive
        } else {
            e matches Expr::Call(c) && c.node.func_name.value@ == name@ && c.node.args == args
                && c.node.func_name.case == CaseSensitivity::CaseInsensitive
        }),
        r matches Ok(e) ==> expr_ids(e) == arg_ids(args@).insert(old(pctx).next()),
        r is Ok <==> old(pctx).next() < u32::MAX,
        r is Err ==> r == Err::<Expr, ParseError>(ParseError::NodeIdsExhausted),
{
    let agg = is_aggregate(name.as_str());
    let func_name = SymbolPrimitive { value: name, case: CaseSensitivity::CaseInsensitive };
    if agg {
        let node = pctx.node(CallAgg { func_name, args })?;
        proof {
            assert(expr_ids(Expr::CallAgg(node)) =~= arg_ids(args@).insert(old(pctx).next()));
        }
        Ok(Expr::CallAgg(node))
    } else {
        let node = pctx.node(Call { func_name, args })?;
        proof {
            assert(expr_ids(Expr::Call(node)) =~= arg_ids(args@).insert(old(pctx).next()));
        }
        Ok(Expr::Call(node))
    }
}

impl PrimaryStrategy {
    pub fn new() -> (r: Self) {
        PrimaryStrategy
    }

    /// Parse a primary expression at `pos` (after optional blanks).
    #[verifier::rlimit(100)]
    #[verifier::spinoff_prover]
    pub fn parse_primary(
        &self,
        pratt: &PrattParser,
        s: &[char],
        pos: usize,
        pctx: &mut ParseContext,
    ) -> (r: Result<(Expr, usize), ParseError>)
        requires
            pos <= s@.len(),
        ensures
            old(pctx).next() <= final(pctx).next(),
            expr_parsed(s@, pos as int, old(pctx).next(), final(pctx).next(), r),
            ({
                let p = skip_space(s@, pos as int);
                p < s@.len() && s@[p] == '\'' ==> lit_outcome(
                    r,
                    old(pctx).next(),
                    string_end(s@, p),
                    |l: Lit| is_string_lit(l, text_of(spec_sql_string(s@, p))),
                )
            }),
            ({
                let p = skip_space(s@, pos as int);
                p < s@.len() && '0' <= s@[p] <= '9' ==> lit_outcome(
                    r,
                    old(pctx).next(),
                    number_end(s@, p),
                    |l: Lit| number_lit_ok(l, spec_ion_number(s@, p)),
                )
            }),
            ({
                let p = skip_space(s@, pos as int);
                p < s@.len() && s@[p] == '[' ==> (r matches Ok((e, q)) ==> e matches Expr::List(_))
            }),
            atom_parsed(s@, pos as int, old(pctx).next(), final(pctx).next(), r),
            ({
                let p = skip_space(s@, pos as int);
                p < s@.len() && s@[p] == '{' ==> (r matches Ok((e, q)) ==> e matches Expr::Struct(_))
            }),
            constructor_parsed(s@, skip_space(s@, pos as int), old(pctx).next() as nat, final(pctx).next() as nat, r),
            call_parsed(s@, skip_space(s@, pos as int), old(pctx).next() as nat, final(pctx).next() as nat, r),
        decreases s@.len() - pos, 3nat,
    {
        proof {
            reveal_strlit("<<");
            reveal_strlit(">>");
            assert("<<"@ =~= seq!['<', '<']);
            assert(">>"@ =~= seq!['>', '>']);
        }
        let n = s.len();
        let p = ws0(s, pos);
        proof {
            crate::identifier::lemma_identifier_start(s@, p as int);
            reveal_strlit("CASE");
        }
        if p < n {
            let c = s[p];
            if c == '\'' {
                return StringLiteralStrategy.parse(s, p, pctx);
            }
            if '0' <= c && c <= '9' {
                return NumericLiteralStrategy.parse(s, p, pctx);
            }
            if c == '[' {
                return ListConstructorStrategy.parse(pratt, s, p, pctx);
            }
            if c == '{' {
                return StructConstructorStrategy.parse(pratt, s, p, pctx);
            }
            if c == '(' {
                return parse_paren_expr(pratt, s, p, pctx);
            }
            if c == '<' {
                match BagConstructorStrategy.parse(pratt, s, p, pctx) {
                    Ok(r) => {
                        return Ok(r);
                    },
                    Err(_) => {},
                }
            }
            if c == '"' {
                let ghost lo = pctx.next();
                let res = parse_identifier_or_call(pratt, s, p, pctx);
                proof {
                    lemma_call_parsed(s@, p as int, lo as nat, pctx.next() as nat, res);
                }
                return res;
            }
            if ('a' <= c && c <= 'z') || ('A' <= c && c <= 'Z') || c == '_' {
                if kw(s, p, "CASE").is_some() {
                    match CaseExprStrategy.parse(pratt, s, p, pctx) {
                        Ok(r) => {
                            return Ok(r);
                        },
                        Err(_) => {},
                    }
                }
                match NullMissingStrategy.parse(s, p, pctx) {
                    Ok(r) => {
                        return Ok(r);
                    },
                    Err(_) => {},
                }
                match BooleanLiteralStrategy.parse(s, p, pctx) {
                    Ok(r) => {
                        return Ok(r);
                    },
                    Err(_) => {},
                }
            }
        }
        let ghost lo = pctx.next();
        let res = parse_identifier_or_call(pratt, s, p, pctx);
        proof {
            lemma_call_parsed(s@, p as int, lo as nat, pctx.next() as nat, res);
        }
        res
    }
}

/// What [`parse_identifier_or_call`] states of calls is what
/// [`call_parsed`] asks.
proof fn lemma_call_parsed(s: Seq<char>, p: int, lo: nat, hi: nat, r: Result<(Expr, usize), ParseError>)
    requires
        spec_identifier(s, p) matches Some((name, q)) ==> {
            let p2 = skip_space(s, q);
            let p3 = skip_space(s, p2 + 1);
            &&& char_at(s, p2, '(') && char_at(s, p3, ')') && lo < u32::MAX ==> (r matches Ok((e, x)) && x == p3
                + 1 && call_named(e, name, 0) && hi == lo + 1)
            &&& char_at(s, p2, '(') && char_at(s, p3, '*') && char_at(s, skip_space(s, p3 + 1), ')') && lo + 1
                < u32::MAX ==> (r matches Ok((e, x)) && x == skip_space(s, p3 + 1) + 1 && call_named(e, name, 1)
                && call_args(e)[0].node == CallArg::Star() && hi == lo + 2)
            &&& char_at(s, p2, '(') && !char_at(s, p3, ')') && !char_at(s, p3, '*') ==> match spec_items(
                s,
                p3,
                seq![')'],
            ) {
                Some((ts, e)) => lo + items_size(ts) + ts.len() + 1 < u32::MAX ==> (r matches Ok((y, x)) && x == e
                    && call_named(y, name, ts.len()) && args_are(s, ts, call_args(y)) && hi == lo + items_size(ts)
                    + ts.len() + 1),
                None => true,
            }
        },
    ensures
        call_parsed(s, p, lo, hi, r),
{
    let none = Seq::<Tree>::empty();
    assert(items_size(none) == 0);
    if let Some((t, e)) = spec_call(s, p) {
        if let Some((name, q)) = spec_identifier(s, p) {
            let p2 = skip_space(s, q);
            let p3 = skip_space(s, p2 + 1);
            if char_at(s, p3, ')') && lo + tree_size(t) < u32::MAX {
                assert(t == Tree::Call(p, none));
                if let Ok((x, xe)) = r {
                    assert(call_args(x).len() == 0);
                    assert(args_are(s, none, call_args(x)));
                }
            }
        }
    }
}

/// `(` expression `)`.
pub fn parse_paren_expr(pratt: &PrattParser, s: &[char], pos: usize, pctx: &mut ParseContext) -> (r:
    Result<(Expr, usize), ParseError>)
    requires
        pos <= s@.len(),
    ensures
        old(pctx).next() <= final(pctx).next(),
        expr_parsed(s@, pos as int, old(pctx).next(), final(pctx).next(), r),
        !char_at(s@, pos as int, '(') ==> r == Err::<(Expr, usize), ParseError>(ParseError::Backtrack),
        char_at(s@, pos as int, '(') ==> match lone_atom_end(s@, pos + 1) {
            Some(e) => old(pctx).next() < u32::MAX && char_at(s@, e, ')') ==> (r matches Ok((x, p)) && p == e
                + 1 && atom_is(s@, skip_space(s@, pos + 1), x, old(pctx).next())),
            None => true,
        },
        char_at(s@, pos as int, '(') ==> paren_parsed(s@, pos as int, old(pctx).next() as nat, final(pctx).next() as nat, r),
    decreases s@.len() - pos, 2nat,
{
    let p1 = match ch(s, pos, '(') {
        Some(p1) => p1,
        None => {
            return Err(ParseError::Backtrack);
        },
    };
    let p2 = ws0(s, p1);
    proof {
        crate::text::lemma_skip_space_idem(s@, p1 as int);
    }
    let (inner, p3) = pratt.parse_expr(s, p2, pctx)?;
    proof {
        if lone_atom_end(s@, p1 as int) is Some {
            crate::text::lemma_skip_space_idem(s@, p3 as int);
        }
    }
    let p4 = ws0(s, p3);
    match ch(s, p4, ')') {
        Some(p5) => Ok((inner, p5)),
        None => Err(ParseError::Backtrack),
    }
}

/// Identifier, or a function call when `(` follows.
///
/// A double-quoted identifier gives a case-sensitive `VarRef`; function
/// names are always case-insensitive. `COUNT(*)` takes a star argument.
pub fn parse_identifier_or_call(
    pratt: &PrattParser,
    s: &[char],
    pos: usize,
    pctx: &mut ParseContext,
) -> (r: Result<(Expr, usize), ParseError>)
    requires
        pos <= s@.len(),
    ensures
        old(pctx).next() <= final(pctx).next(),
        expr_parsed(s@, pos as int, old(pctx).next(), final(pctx).next(), r),
        r matches Ok((e, p)) ==> spec_identifier(s@, pos as int) is Some,
        r matches Ok((Expr::VarRef(v), p)) ==> spec_identifier(s@, pos as int) matches Some((name, q))
            && v.node.name.value@ == name && p == skip_space(s@, q) && v.node.name.case == (if spec_quoted_identifier(
            s@,
            pos as int,
        ) is Some {
            CaseSensitivity::CaseSensitive
        } else {
            CaseSensitivity::CaseInsensitive
        }),
        spec_identifier(s@, pos as int) is None ==> r == Err::<(Expr, usize), ParseError>(ParseError::Backtrack),
        spec_identifier(s@, pos as int) matches Some((name, q)) ==> {
            let p2 = skip_space(s@, q);
            let p3 = skip_space(s@, p2 + 1);
            &&& !char_at(s@, p2, '(') && old(pctx).next() < u32::MAX ==> (r matches Ok((Expr::VarRef(v), p))
                && p == p2 && v.id.0 == old(pctx).next() && final(pctx).next() == old(pctx).next() + 1
                && v.node.qualifier == ScopeQualifier::Unqualified)
            &&& char_at(s@, p2, '(') && char_at(s@, p3, ')') && old(pctx).next() < u32::MAX ==> (r matches Ok(
                (e, p),
            ) && p == p3 + 1 && call_named(e, name, 0) && final(pctx).next() == old(pctx).next() + 1)
            &&& char_at(s@, p2, '(') && char_at(s@, p3, '*') && char_at(s@, skip_space(s@, p3 + 1), ')')
                && old(pctx).next() + 1 < u32::MAX ==> (r matches Ok((e, p)) && p == skip_space(s@, p3 + 1) + 1
                && call_named(e, name, 1) && call_args(e)[0].node == CallArg::Star() && final(pctx).next()
                == old(pctx).next() + 2)
            &&& char_at(s@, p2, '(') && !char_at(s@, p3, ')') && !char_at(s@, p3, '*') ==> match spec_items(
                s@,
                p3,
                seq![')'],
            ) {
                Some((ts, e)) => old(pctx).next() + items_size(ts) + ts.len() + 1 < u32::MAX ==> (r matches Ok(
                    (x, p),
                ) && p == e && call_named(x, name, ts.len()) && args_are(s@, ts, call_args(x))
                    && final(pctx).next() == old(pctx).next() + items_size(ts) + ts.len() + 1),
                None => true,
            }
        },
    decreases s@.len() - pos, 2nat,
{
    let ghost lo = pctx.next();
    let (name, is_quoted, p1) = identifier_with_case(s, pos)?;
    let case = if is_quoted {
        CaseSensitivity::CaseSensitive
    } else {
        CaseSensitivity::CaseInsensitive
    };
    let p2 = ws0(s, p1);
    if let Some(p3) = ch(s, p2, '(') {
        let mut p = ws0(s, p3);
        let mut args: Vec<AstNode<CallArg>> = Vec::new();
        if let Some(q) = ch(s, p, ')') {
            let e = make_call(pctx, name, args)?;
            proof {
                assert(arg_ids(args@) =~= Set::<nat>::empty());
            }
            return Ok((e, q));
        }
        if let Some(q) = ch(s, p, '*') {
            let star = pctx.node(CallArg::Star())?;
            args.push(star);
            proof {
                assert(args@.drop_last() =~= Seq::<AstNode<CallArg>>::empty());
                assert(arg_ids(args@.drop_last()) =~= Set::<nat>::empty());
                assert(args@.last().id.0 == lo);
                assert(arg_ids(args@) =~= set![lo]);
            }
            let q2 = ws0(s, q);
            let q3 = match ch(s, q2, ')') {
                Some(q3) => q3,
                None => {
                    return Err(ParseError::Backtrack);
                },
            };
            let e = make_call(pctx, name, args)?;
            return Ok((e, q3));
        }
        let ghost p0 = p;
        let ghost cl = seq![')'];
        let ghost good = spec_items(s@, p0 as int, cl) is Some;
        let ghost all: Seq<Tree> = match spec_items(s@, p0 as int, cl) {
            Some((ts, e)) => ts,
            None => Seq::empty(),
        };
        let ghost fits = good && lo + items_size(all) + all.len() + 1 < u32::MAX;
        let ghost mut done: Seq<Tree> = Seq::empty();
        proof {
            assert(done + items_rest(s@, p as int, cl) =~= items_rest(s@, p as int, cl));
        }
        loop
            invariant_except_break
                fits ==> spec_items(s@, p as int, cl) is Some && spec_items(s@, p0 as int, cl) == Some(
                    (done + items_rest(s@, p as int, cl), items_end(s@, p as int, cl)),
                ) && args_are(s@, done, args@) && pctx.next() == lo + items_size(done) + done.len() && done
                    + items_rest(s@, p as int, cl) == all,
            invariant
                spec_identifier(s@, pos as int) matches Some((nm, q0)) && ({
                    let b2 = skip_space(s@, q0);
                    let b3 = skip_space(s@, b2 + 1);
                    char_at(s@, b2, '(') && !char_at(s@, b3, ')') && !char_at(s@, b3, '*') && b3 == p0
                }),
                cl == seq![')'],
                good == (spec_items(s@, p0 as int, cl) is Some),
                good ==> (spec_items(s@, p0 as int, cl) matches Some((ts, e)) && ts == all),
                fits == (good && lo + items_size(all) + all.len() + 1 < u32::MAX),
                pos < p <= s@.len(),
                lo <= pctx.next(),
                lo == old(pctx).next(),
                ids_within(arg_ids(args@), lo, pctx.next()),
            ensures
                pos < p <= s@.len(),
                lo <= pctx.next(),
                ids_within(arg_ids(args@), lo, pctx.next()),
                fits ==> lit_at(s@, p as int, cl) && p == skip_space(s@, p as int) && spec_items(s@, p0 as int, cl)
                    == Some((done, p + 1)) && args_are(s@, done, args@) && pctx.next() == lo + items_size(done)
                    + done.len(),
            decreases s@.len() - p,
        {
            let q = ws0(s, p);
            let ghost t = match spec_bp(s@, q as int, 0) {
                Some((t, e)) => t,
                None => Tree::Atom(0),
            };
            let ghost p_old = p;
            proof {
                if fits {
                    lemma_items_first(s@, p as int, cl, t);
                    lemma_items_size_concat(done, items_rest(s@, p as int, cl));
                    let rest = items_rest(s@, p as int, cl);
                    assert(done + rest == all);
                    assert(all.len() == done.len() + rest.len());
                    assert(pctx.next() + tree_size(t) + 1 < u32::MAX);
                }
            }
            let (expr, q2) = pratt.parse_expr(s, q, pctx)?;
            let ghost xe = expr;
            let arg = pctx.node(CallArg::Positional(Box::new(expr)))?;
            let ghost before = args@;
            args.push(arg);
            proof {
                assert(args@.drop_last() =~= before);
                if fits {
                    lemma_items_step(s@, p0 as int, p_old as int, cl, done, t, q2 as int);
                    lemma_items_size_push(done, t);
                    assert forall|i: int| 0 <= i < done.push(t).len() implies ((#[trigger] args@[i]).node matches CallArg::Positional(a)
                        && tree_is(s@, done.push(t)[i], *a)) by {
                        if i < done.len() {
                            assert(args@[i] == before[i]);
                        }
                    }
                }
                done = done.push(t);
            }
            let q3 = ws0(s, q2);
            match ch(s, q3, ',') {
                Some(q4) => {
                    p = q4;
                },
                None => {
                    p = q3;
                    break ;
                },
            }
        }
        let q = ws0(s, p);
        proof {
            crate::text::lemma_lit_char(s@, q as int, ')');
        }
        let q2 = match ch(s, q, ')') {
            Some(q2) => q2,
            None => {
                return Err(ParseError::Backtrack);
            },
        };
        let e = make_call(pctx, name, args)?;
        return Ok((e, q2));
    }
    let node = pctx.node(VarRef { name: SymbolPrimitive { value: name, case }, qualifier: ScopeQualifier::Unqualified })?;
    Ok((Expr::VarRef(node), p2))
}

} // verus!
