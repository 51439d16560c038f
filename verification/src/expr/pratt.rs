//! Pratt parser: a single loop over binding powers.
use crate::ast::{
    expr_ids, ids_within, step_ids, AstNode, BinOp, BinOpKind, CallArg, Expr, Lit, Path, PathExpr, PathStep, UniOp,
    UniOpKind,
};
use crate::expr::comparison::between_parser::{between_shape, BetweenParser};
use crate::expr::comparison::in_parser::{in_items, in_opens_at, InParser};
use crate::expr::comparison::is_parser::{spec_is_tail, IsParser};
use crate::expr::comparison::like_parser::{like_shape, LikeParser};
use crate::expr::infix::{
    consume_infix, infix_width, peek_infix, spec_peek_infix, InfixOp, NOT_PREFIX_BP, PREFIX_BP,
};
use crate::expr::primary_strategy::{call_args, call_named, PrimaryStrategy};
use crate::literal::boolean_strategy::boolean_end;
use crate::literal::null_strategy::null_missing_end;
use crate::expr::{
    atom_end, atom_is, atom_parsed, atom_then_end, atom_then_parsed, expr_ends_at, expr_parsed, extends_left,
    ids_within_or, lemma_atom_start, lemma_atom_then_fixed, lemma_lone_ends, lone_atom_end, lone_atom_parsed, StrategyContext,
};
use crate::identifier::{identifier, spec_identifier};
use crate::parse_context::{ParseContext, ParseError};
use crate::text::{ch, char_at, kw, kw_at, lit_at, skip_space, spec_kw_ws, spec_kw_ws0, ws, ws0};
use vstd::prelude::*;

verus! {

/// Pratt expression parser. Stateless; created once, reused.
pub struct PrattParser {
    primary: PrimaryStrategy,
}

/// What follows a finished expression: neither a path step nor an infix
/// operator that binds at least as tightly as `min_bp`, except a
/// special form (`IS`, `IN`, `LIKE`, `BETWEEN`, `NOT ...`) that did not
/// match.
pub open spec fn stops_at(s: Seq<char>, p: int, min_bp: u8) -> bool {
    &&& !(0 <= p < s.len() && (s[p] == '.' || s[p] == '['))
    &&& match spec_peek_infix(s, p) {
        Some((InfixOp::BinOp(_), l, _)) => l < min_bp,
        _ => true,
    }
}

/// The shape of an expression that the operator grammar below builds:
/// an atom (by its position), a binary or prefix operator, a list or bag
/// constructor, a special form, or a function call.
pub enum Tree {
    Atom(int),
    Bin(BinOpKind, Box<Tree>, Box<Tree>),
    Un(UniOpKind, Box<Tree>),
    List(Seq<Tree>),
    Bag(Seq<Tree>),
    Is(Box<Tree>, bool, bool),
    In(Box<Tree>, Seq<Tree>),
    Between(Box<Tree>, Box<Tree>, Box<Tree>),
    Like(Box<Tree>, Box<Tree>),
    LikeEscape(Box<Tree>, Box<Tree>, Box<Tree>),
    /// A call of the function named at the position, with its arguments.
    Call(int, Seq<Tree>),
    /// A call with `*` as its argument, such as `COUNT(*)`.
    CallStar(int),
}

/// `x` has the shape `t`, node ids aside: each atom is the atom that
/// stands at its position (see [`atom_is`]), each operator node has the
/// operator and the operands of the tree.
pub open spec fn tree_is(s: Seq<char>, t: Tree, x: Expr) -> bool
    decreases t,
{
    match t {
        Tree::Atom(p) => match x {
            Expr::Lit(l) => atom_is(s, p, x, l.id.0 as nat),
            Expr::VarRef(v) => atom_is(s, p, x, v.id.0 as nat),
            _ => false,
        },
        Tree::Bin(k, l, r) => match x {
            Expr::BinOp(b) => b.node.kind == k && tree_is(s, *l, *b.node.lhs) && tree_is(s, *r, *b.node.rhs),
            _ => false,
        },
        Tree::Un(k, e) => match x {
            Expr::UniOp(u) => u.node.kind == k && tree_is(s, *e, *u.node.expr),
            _ => false,
        },
        Tree::List(ts) => match x {
            Expr::List(l) => items_are(s, ts, l.node.values@),
            _ => false,
        },
        Tree::Bag(ts) => match x {
            Expr::Bag(l) => items_are(s, ts, l.node.values@),
            _ => false,
        },
        Tree::Is(l, negated, null) => match x {
            Expr::UniOp(u) => negated && u.node.kind == UniOpKind::Not && match *u.node.expr {
                Expr::BinOp(b) => b.node.kind == BinOpKind::Is && tree_is(s, *l, *b.node.lhs) && is_null_or_missing(
                    *b.node.rhs,
                    null,
                ),
                _ => false,
            },
            Expr::BinOp(b) => !negated && b.node.kind == BinOpKind::Is && tree_is(s, *l, *b.node.lhs)
                && is_null_or_missing(*b.node.rhs, null),
            _ => false,
        },
        Tree::In(l, ts) => match x {
            Expr::In(n) => tree_is(s, *l, *n.node.lhs) && match *n.node.rhs {
                Expr::List(li) => items_are(s, ts, li.node.values@),
                _ => false,
            },
            _ => false,
        },
        Tree::Between(v, lo, hi) => match x {
            Expr::Between(n) => tree_is(s, *v, *n.node.value) && tree_is(s, *lo, *n.node.from) && tree_is(
                s,
                *hi,
                *n.node.to,
            ),
            _ => false,
        },
        Tree::Like(v, pt) => match x {
            Expr::Like(n) => tree_is(s, *v, *n.node.value) && tree_is(s, *pt, *n.node.pattern) && n.node.escape is None,
            _ => false,
        },
        Tree::LikeEscape(v, pt, et) => match x {
            Expr::Like(n) => tree_is(s, *v, *n.node.value) && tree_is(s, *pt, *n.node.pattern) && match n.node.escape {
                Some(b) => tree_is(s, *et, *b),
                None => false,
            },
            _ => false,
        },
        Tree::Call(p, ts) => spec_identifier(s, p) matches Some((name, q)) && call_named(x, name, ts.len())
            && args_are(s, ts, call_args(x)),
        Tree::CallStar(p) => spec_identifier(s, p) matches Some((name, q)) && call_named(x, name, 1)
            && call_args(x)[0].node == CallArg::Star(),
    }
}

/// The arguments `args` are positional, one for each shape of `ts`, in
/// order.
pub open spec fn args_are(s: Seq<char>, ts: Seq<Tree>, args: Seq<AstNode<CallArg>>) -> bool
    decreases ts,
{
    &&& args.len() == ts.len()
    &&& forall|i: int| 0 <= i < ts.len() ==> ((#[trigger] args[i]).node matches CallArg::Positional(a) && tree_is(
        s,
        ts[i],
        *a,
    ))
}

/// The optional expression `w` has the shape `c`, or is absent where
/// `c` is.
pub open spec fn opt_tree_is(s: Seq<char>, c: Option<Tree>, w: Option<Box<Expr>>) -> bool {
    match c {
        Some(t) => w matches Some(b) && tree_is(s, t, *b),
        None => w is None,
    }
}

/// How many nodes the parser builds for an expression of shape `t`:
/// one per atom and per operator; a list or bag node over its items; the
/// tested literal, the test and, when negated, a `NOT` for `IS`; a list
/// node and the `IN` node for `IN`; for a call, its node and one node per
/// argument over the argument's expression (`*` is one such node).
/// Parentheses build no node.
pub open spec fn tree_size(t: Tree) -> nat
    decreases t,
{
    match t {
        Tree::Atom(p) => 1,
        Tree::Bin(k, l, r) => 1 + tree_size(*l) + tree_size(*r),
        Tree::Un(k, e) => 1 + tree_size(*e),
        Tree::List(ts) => 1 + items_size(ts),
        Tree::Bag(ts) => 1 + items_size(ts),
        Tree::Is(l, negated, null) => tree_size(*l) + if negated {
            3nat
        } else {
            2nat
        },
        Tree::In(l, ts) => tree_size(*l) + items_size(ts) + 2,
        Tree::Between(v, lo, hi) => 1 + tree_size(*v) + tree_size(*lo) + tree_size(*hi),
        Tree::Like(v, pt) => 1 + tree_size(*v) + tree_size(*pt),
        Tree::LikeEscape(v, pt, et) => 1 + tree_size(*v) + tree_size(*pt) + tree_size(*et),
        Tree::Call(p, ts) => 1 + items_size(ts) + ts.len(),
        Tree::CallStar(p) => 2,
    }
}

/// How many nodes the parser builds for an optional expression.
pub open spec fn opt_size(t: Option<Tree>) -> nat {
    match t {
        Some(x) => tree_size(x),
        None => 0,
    }
}

/// How many nodes the parser builds for expressions of shapes `ts`.
pub open spec fn items_size(ts: Seq<Tree>) -> nat
    decreases ts,
{
    if ts.len() == 0 {
        0
    } else {
        items_size(ts.subrange(0, ts.len() - 1)) + tree_size(ts[ts.len() - 1])
    }
}

/// One more item adds its size.
pub proof fn lemma_items_size_push(ts: Seq<Tree>, t: Tree)
    ensures
        items_size(ts.push(t)) == items_size(ts) + tree_size(t),
{
    assert(ts.push(t).subrange(0, ts.len() as int) =~= ts);
}

/// The expressions of entries that pair an expression with something
/// else, in order.
pub open spec fn entry_trees<A>(xs: Seq<(Tree, A)>) -> Seq<Tree> {
    xs.map_values(|x: (Tree, A)| x.0)
}

/// How many nodes entries take that each hold an expression in a node of
/// their own (sort specifications, group keys).
pub open spec fn entries_size<A>(xs: Seq<(Tree, A)>) -> nat {
    items_size(entry_trees(xs)) + xs.len()
}

/// The size of entries read in two parts is the sum of the parts' sizes.
pub proof fn lemma_entries_size_concat<A>(a: Seq<(Tree, A)>, b: Seq<(Tree, A)>)
    ensures
        entries_size(a + b) == entries_size(a) + entries_size(b),
{
    assert(entry_trees(a + b) =~= entry_trees(a) + entry_trees(b));
    lemma_items_size_concat(entry_trees(a), entry_trees(b));
}

/// One more entry adds the size of its expression and its own node.
pub proof fn lemma_entries_size_push<A>(xs: Seq<(Tree, A)>, x: (Tree, A))
    ensures
        entries_size(xs.push(x)) == entries_size(xs) + tree_size(x.0) + 1,
        entries_size(seq![x]) == tree_size(x.0) + 1,
{
    assert(entry_trees(xs.push(x)) =~= entry_trees(xs).push(x.0));
    lemma_items_size_push(entry_trees(xs), x.0);
    let none = Seq::<(Tree, A)>::empty();
    assert(entry_trees(none) =~= Seq::<Tree>::empty());
    assert(items_size(Seq::<Tree>::empty()) == 0);
    assert(entry_trees(seq![x]) =~= Seq::<Tree>::empty().push(x.0));
    lemma_items_size_push(Seq::<Tree>::empty(), x.0);
}

/// The first entry of `xs` and the rest.
pub proof fn lemma_entries_size_first<A>(xs: Seq<(Tree, A)>)
    requires
        xs.len() > 0,
    ensures
        entries_size(xs) == tree_size(xs[0].0) + 1 + entries_size(xs.subrange(1, xs.len() as int)),
{
    assert(xs =~= seq![xs[0]] + xs.subrange(1, xs.len() as int));
    lemma_entries_size_concat(seq![xs[0]], xs.subrange(1, xs.len() as int));
    lemma_entries_size_push(Seq::<(Tree, A)>::empty(), xs[0]);
}

/// The size of items read in two parts is the sum of the parts' sizes.
pub proof fn lemma_items_size_concat(a: Seq<Tree>, b: Seq<Tree>)
    ensures
        items_size(a + b) == items_size(a) + items_size(b),
    decreases b.len(),
{
    if b.len() == 0 {
        assert(a + b =~= a);
    } else {
        let b0 = b.subrange(0, b.len() - 1);
        lemma_items_size_concat(a, b0);
        assert((a + b).subrange(0, (a + b).len() - 1) =~= a + b0);
    }
}

/// `e` is the literal `NULL` when `null`, else `MISSING`.
pub open spec fn is_null_or_missing(e: Expr, null: bool) -> bool {
    e matches Expr::Lit(l) && if null {
        l.node is Null
    } else {
        l.node is Missing
    }
}

/// The `LIKE` test of `v` against the pattern `pt`, with the escape `esc`
/// when there is one.
pub open spec fn like_tree(v: Tree, pt: Tree, esc: Option<Tree>) -> Tree {
    match esc {
        Some(et) => Tree::LikeEscape(Box::new(v), Box::new(pt), Box::new(et)),
        None => Tree::Like(Box::new(v), Box::new(pt)),
    }
}

/// A special form `op` (`IS`, `IN`, `LIKE`, `BETWEEN`) at `a` applied to
/// the operand `lhs`: the form's tree and where it ends.
pub open spec fn special_tail(s: Seq<char>, a: int, op: InfixOp, lhs: Tree) -> Option<(Tree, int)>
    decreases s.len() - a, 1int,
{
    match op {
        InfixOp::Is => match spec_is_tail(s, a) {
            Some((negated, null, e)) => Some((Tree::Is(Box::new(lhs), negated, null), e)),
            None => None,
        },
        InfixOp::In => match in_items(s, a) {
            Some((ts, e)) => Some((Tree::In(Box::new(lhs), ts), e)),
            None => None,
        },
        InfixOp::Like => match like_shape(s, a) {
            Some((pt, esc, e)) => Some((like_tree(lhs, pt, esc), e)),
            None => None,
        },
        InfixOp::Between => match between_shape(s, a) {
            Some((lo, hi, e)) => Some((Tree::Between(Box::new(lhs), Box::new(lo), Box::new(hi)), e)),
            None => None,
        },
        _ => None,
    }
}

/// After `NOT` and blanks, at `q`: the first of `IN`, `LIKE` and
/// `BETWEEN` that matches, applied to `lhs`, and where it ends.
pub open spec fn not_tail(s: Seq<char>, q: int, lhs: Tree) -> Option<(Tree, int)>
    decreases s.len() - q, 1int,
{
    match in_items(s, q) {
        Some((ts, e)) => Some((Tree::In(Box::new(lhs), ts), e)),
        None => match like_shape(s, q) {
            Some((pt, esc, e)) => Some((like_tree(lhs, pt, esc), e)),
            None => match between_shape(s, q) {
                Some((lo, hi, e)) => Some((Tree::Between(Box::new(lhs), Box::new(lo), Box::new(hi)), e)),
                None => None,
            },
        },
    }
}

/// The expressions `xs` have the shapes `ts`, one for one.
pub open spec fn items_are(s: Seq<char>, ts: Seq<Tree>, xs: Seq<Box<Expr>>) -> bool
    decreases ts,
{
    &&& xs.len() == ts.len()
    &&& forall|i: int| 0 <= i < ts.len() ==> tree_is(s, #[trigger] ts[i], *xs[i])
}

/// The operator grammar by binding power, over atoms, the binary
/// operators and the prefix operators `-`, `+` and `NOT`: the expression
/// at `pos` (after blanks) whose infix operators bind at least as tightly
/// as `min_bp`, and where it ends (after its blanks).
///
/// An operator `op` with binding powers `(l, r)` continues the expression
/// when `l >= min_bp`; its right operand is the expression at binding
/// power `r`. As `r = l + 1`, operators of one level associate to the
/// left, and a tighter operator takes its operands first. `-` and `+`
/// take an operand at power 11, `NOT` one at power 4 (one comparison).
/// Where a path step, a special form (`IS`, `IN`, `LIKE`, `BETWEEN`,
/// `NOT ...`) or anything else stands, the grammar has no answer.
pub open spec fn spec_bp(s: Seq<char>, pos: int, min_bp: u8) -> Option<(Tree, int)>
    decreases s.len() - pos, 3int,
{
    match spec_prefix(s, pos) {
        Some((t, q)) => if pos < q <= s.len() {
            spec_bp_loop(s, q, t, min_bp)
        } else {
            None
        },
        None => None,
    }
}

/// The operand at `pos` (after blanks): a prefix operator and its
/// operand, or an atom; and where it ends.
pub open spec fn spec_prefix(s: Seq<char>, pos: int) -> Option<(Tree, int)>
    decreases s.len() - pos, 1int,
{
    let p0 = skip_space(s, pos);
    let p1 = skip_space(s, p0 + 1);
    if 0 <= pos && char_at(s, p0, '-') {
        if pos < p1 <= s.len() {
            match spec_bp(s, p1, PREFIX_BP) {
                Some((t, e)) => Some((Tree::Un(UniOpKind::Neg, Box::new(t)), e)),
                None => None,
            }
        } else {
            None
        }
    } else if 0 <= pos && char_at(s, p0, '+') {
        if pos < p1 <= s.len() {
            match spec_bp(s, p1, PREFIX_BP) {
                Some((t, e)) => Some((Tree::Un(UniOpKind::Pos, Box::new(t)), e)),
                None => None,
            }
        } else {
            None
        }
    } else {
        match spec_kw_ws(s, p0, "NOT"@) {
            Some(q2) => if pos < q2 <= s.len() {
                match spec_bp(s, q2, NOT_PREFIX_BP) {
                    Some((t, e)) => Some((Tree::Un(UniOpKind::Not, Box::new(t)), e)),
                    None => None,
                }
            } else {
                None
            },
            None => if pos <= p0 && char_at(s, p0, '[') {
                match spec_delimited(s, p0, seq!['['], seq![']']) {
                    Some((ts, e)) => Some((Tree::List(ts), e)),
                    None => None,
                }
            } else if pos <= p0 && lit_at(s, p0, seq!['<', '<']) {
                match spec_delimited(s, p0, seq!['<', '<'], seq!['>', '>']) {
                    Some((ts, e)) => Some((Tree::Bag(ts), e)),
                    None => None,
                }
            } else if pos <= p0 && char_at(s, p0, '(') {
                if pos < p1 <= s.len() {
                    match spec_bp(s, p1, 0) {
                        Some((t, e)) => if char_at(s, e, ')') {
                            Some((t, e + 1))
                        } else {
                            None
                        },
                        None => None,
                    }
                } else {
                    None
                }
            } else {
                match atom_end(s, p0) {
                    Some(q) => Some((Tree::Atom(p0), q)),
                    None => if pos <= p0 <= s.len() {
                        spec_call(s, p0)
                    } else {
                        None
                    },
                }
            },
        }
    }
}

/// Where the arguments of a call at `p` start: a name that is not a
/// keyword of the grammar (`NULL`, `MISSING`, `TRUE`, `FALSE`, `CASE`,
/// `NOT`), then `(` (blanks around it skipped).
pub open spec fn call_head(s: Seq<char>, p: int) -> Option<int> {
    match spec_identifier(s, p) {
        Some((name, q)) => if null_missing_end(s, p) is None && boolean_end(s, p) is None && !kw_at(s, p, "CASE"@)
            && !kw_at(s, p, "NOT"@) && char_at(s, skip_space(s, q), '(') {
            Some(skip_space(s, skip_space(s, q) + 1))
        } else {
            None
        },
        None => None,
    }
}

/// A function call at `p`: `name()`, `name(*)`, or `name(` expressions
/// separated by commas `)`; its shape and where it ends.
pub open spec fn spec_call(s: Seq<char>, p: int) -> Option<(Tree, int)>
    decreases s.len() - p, 0int,
{
    match call_head(s, p) {
        Some(b) => if p < b <= s.len() {
            if char_at(s, b, ')') {
                Some((Tree::Call(p, Seq::empty()), b + 1))
            } else if char_at(s, b, '*') {
                if char_at(s, skip_space(s, b + 1), ')') {
                    Some((Tree::CallStar(p), skip_space(s, b + 1) + 1))
                } else {
                    None
                }
            } else {
                match spec_items(s, b, seq![')']) {
                    Some((ts, e)) => Some((Tree::Call(p, ts), e)),
                    None => None,
                }
            }
        } else {
            None
        },
        None => None,
    }
}

/// A result `r` of a primary at `p` is the call that [`spec_call`] reads
/// there, whenever the counter before the call (`lo`) leaves room for its
/// nodes; `hi` is the counter afterwards.
pub open spec fn call_parsed(s: Seq<char>, p: int, lo: nat, hi: nat, r: Result<(Expr, usize), ParseError>) -> bool {
    match spec_call(s, p) {
        Some((t, e)) => lo + tree_size(t) < u32::MAX ==> (r matches Ok((x, q)) && q == e && tree_is(s, t, x) && hi
            == lo + tree_size(t)),
        None => true,
    }
}

/// The rest of the expression after an operand `lhs` that ends at `p`.
pub open spec fn spec_bp_loop(s: Seq<char>, p: int, lhs: Tree, min_bp: u8) -> Option<(Tree, int)>
    decreases s.len() - p, 2int,
{
    let a = skip_space(s, p);
    if char_at(s, a, '.') || char_at(s, a, '[') {
        None
    } else {
        match spec_peek_infix(s, a) {
            None => Some((lhs, a)),
            Some((op, l, r)) => if l < min_bp {
                Some((lhs, a))
            } else {
                match op {
                    InfixOp::BinOp(k) => {
                        let q2 = skip_space(s, a + infix_width(op));
                        if p < q2 <= s.len() {
                            match spec_bp(s, q2, r) {
                                Some((rt, e)) => if p < e <= s.len() {
                                    spec_bp_loop(s, e, Tree::Bin(k, Box::new(lhs), Box::new(rt)), min_bp)
                                } else {
                                    None
                                },
                                None => None,
                            }
                        } else {
                            None
                        }
                    },
                    InfixOp::Not => {
                        let q2 = skip_space(s, a + infix_width(op));
                        if p <= a < q2 <= s.len() {
                            match not_tail(s, q2, lhs) {
                                Some((t, e)) => if p < e <= s.len() {
                                    spec_bp_loop(s, e, Tree::Un(UniOpKind::Not, Box::new(t)), min_bp)
                                } else {
                                    None
                                },
                                None => None,
                            }
                        } else {
                            None
                        }
                    },
                    _ => if p <= a {
                        match special_tail(s, a, op, lhs) {
                            Some((t, e)) => if p < e <= s.len() {
                                spec_bp_loop(s, e, t, min_bp)
                            } else {
                                None
                            },
                            None => None,
                        }
                    } else {
                        None
                    },
                }
            }
        }
    }
}

/// The binary operator at `o` and its left binding power.
pub open spec fn binop_at(s: Seq<char>, o: int) -> Option<(BinOpKind, u8)> {
    match spec_peek_infix(s, o) {
        Some((InfixOp::BinOp(k), l, r)) => Some((k, l)),
        _ => None,
    }
}

/// A binary operator's right binding power is one more than its left.
proof fn lemma_binop_right(s: Seq<char>, o: int)
    ensures
        spec_peek_infix(s, o) matches Some((InfixOp::BinOp(k), l, r)) ==> r == l + 1,
{
}

/// An atom after blanks at `p` is the operand there.
proof fn lemma_prefix_atom(s: Seq<char>, p: int, a: int, e: int)
    requires
        0 <= p <= a,
        a == skip_space(s, p),
        atom_end(s, a) == Some(e),
    ensures
        spec_prefix(s, p) == Some((Tree::Atom(a), e)),
{
    reveal_strlit("NOT");
    lemma_atom_start(s, a);
    crate::text::lemma_skip_space_idem(s, p);
    if lit_at(s, a, seq!['<', '<']) {
        assert(s.subrange(a, a + 2)[0] == s[a]);
    }
}

/// Nothing binds after the operand that ends at `p`.
proof fn lemma_loop_none(s: Seq<char>, p: int, t: Tree, m: u8)
    requires
        spec_peek_infix(s, skip_space(s, p)) is None,
        !char_at(s, skip_space(s, p), '.'),
        !char_at(s, skip_space(s, p), '['),
    ensures
        spec_bp_loop(s, p, t, m) == Some((t, skip_space(s, p))),
{
}

/// A binary operator after the operand that ends at `p` binds too
/// loosely for `m`.
proof fn lemma_loop_low(s: Seq<char>, p: int, t: Tree, m: u8, k: BinOpKind, l: u8)
    requires
        binop_at(s, skip_space(s, p)) == Some((k, l)),
        l < m,
    ensures
        spec_bp_loop(s, p, t, m) == Some((t, skip_space(s, p))),
{
}

/// A binary operator after the operand that ends at `p` binds tightly
/// enough for `m`: its right operand is the expression at `a`.
proof fn lemma_loop_bin(s: Seq<char>, p: int, t: Tree, m: u8, k: BinOpKind, l: u8, r: u8, a: int, rt: Tree, e: int)
    requires
        spec_peek_infix(s, skip_space(s, p)) == Some((InfixOp::BinOp(k), l, r)),
        l >= m,
        a == skip_space(s, skip_space(s, p) + infix_width(InfixOp::BinOp(k))),
        p < a <= s.len(),
        spec_bp(s, a, r) == Some((rt, e)),
        p < e <= s.len(),
    ensures
        spec_bp_loop(s, p, t, m) == spec_bp_loop(s, e, Tree::Bin(k, Box::new(t), Box::new(rt)), m),
{
}

/// Precedence and associativity of two binary operators between three
/// atoms (at `a0`, `a1` and `a2`, after blanks, ending at `e0`, `e1`
/// and `e2`), with nothing after the last: the second operator takes
/// the middle atom only when it binds strictly tighter than the first;
/// otherwise the first pair groups first, so operators of one level
/// associate to the left.
pub proof fn law_two_operators(
    s: Seq<char>,
    p: int,
    a0: int,
    e0: int,
    a1: int,
    e1: int,
    a2: int,
    e2: int,
    k1: BinOpKind,
    l1: u8,
    k2: BinOpKind,
    l2: u8,
)
    requires
        0 <= p <= a0,
        a0 == skip_space(s, p),
        atom_end(s, a0) == Some(e0),
        a0 < e0 <= s.len(),
        binop_at(s, skip_space(s, e0)) == Some((k1, l1)),
        a1 == skip_space(s, skip_space(s, e0) + infix_width(InfixOp::BinOp(k1))),
        atom_end(s, a1) == Some(e1),
        a1 < e1 <= s.len(),
        binop_at(s, skip_space(s, e1)) == Some((k2, l2)),
        a2 == skip_space(s, skip_space(s, e1) + infix_width(InfixOp::BinOp(k2))),
        atom_end(s, a2) == Some(e2),
        a2 < e2 <= s.len(),
        spec_peek_infix(s, skip_space(s, e2)) is None,
        !char_at(s, skip_space(s, e2), '.'),
        !char_at(s, skip_space(s, e2), '['),
    ensures
        spec_bp(s, p, 0) == Some(
            (
                if l2 > l1 {
                    Tree::Bin(
                        k1,
                        Box::new(Tree::Atom(a0)),
                        Box::new(Tree::Bin(k2, Box::new(Tree::Atom(a1)), Box::new(Tree::Atom(a2)))),
                    )
                } else {
                    Tree::Bin(
                        k2,
                        Box::new(Tree::Bin(k1, Box::new(Tree::Atom(a0)), Box::new(Tree::Atom(a1)))),
                        Box::new(Tree::Atom(a2)),
                    )
                },
                skip_space(s, e2),
            ),
        ),
{
    let o1 = skip_space(s, e0);
    let o2 = skip_space(s, e1);
    let f = skip_space(s, e2);
    let t0 = Tree::Atom(a0);
    let t1 = Tree::Atom(a1);
    let t2 = Tree::Atom(a2);
    lemma_binop_right(s, o1);
    lemma_binop_right(s, o2);
    let r1 = (l1 + 1) as u8;
    let r2 = (l2 + 1) as u8;
    lemma_prefix_atom(s, p, a0, e0);
    lemma_prefix_atom(s, a1, a1, e1);
    lemma_prefix_atom(s, a2, a2, e2);
    crate::text::lemma_skip_space(s, o1 + infix_width(InfixOp::BinOp(k1)));
    crate::text::lemma_skip_space(s, o2 + infix_width(InfixOp::BinOp(k2)));
    crate::text::lemma_skip_space(s, e0);
    crate::text::lemma_skip_space(s, e1);
    crate::text::lemma_skip_space(s, e2);
    lemma_loop_none(s, e2, t2, r2);
    assert(spec_bp(s, a2, r2) == Some((t2, f)));
    if l2 > l1 {
        let t12 = Tree::Bin(k2, Box::new(t1), Box::new(t2));
        lemma_loop_bin(s, e1, t1, r1, k2, l2, r2, a2, t2, f);
        lemma_loop_none(s, f, t12, r1);
        crate::text::lemma_skip_space_idem(s, e2);
        assert(spec_bp(s, a1, r1) == Some((t12, f)));
        let t = Tree::Bin(k1, Box::new(t0), Box::new(t12));
        lemma_loop_bin(s, e0, t0, 0, k1, l1, r1, a1, t12, f);
        lemma_loop_none(s, f, t, 0);
    } else {
        lemma_loop_low(s, e1, t1, r1, k2, l2);
        assert(spec_bp(s, a1, r1) == Some((t1, o2)));
        let t01 = Tree::Bin(k1, Box::new(t0), Box::new(t1));
        let t = Tree::Bin(k2, Box::new(t01), Box::new(t2));
        lemma_loop_bin(s, e0, t0, 0, k1, l1, r1, a1, t1, o2);
        crate::text::lemma_skip_space_idem(s, e1);
        lemma_loop_bin(s, o2, t01, 0, k2, l2, r2, a2, t2, f);
        crate::text::lemma_skip_space_idem(s, e2);
        lemma_loop_none(s, f, t, 0);
    }
}

/// Where an expression of the grammar with minimum binding power `m`
/// ends: after its blanks, before no path step, and before no infix
/// operator that binds at least as tightly as `m`.
pub open spec fn ended_at(s: Seq<char>, e: int, m: u8) -> bool {
    &&& e == skip_space(s, e)
    &&& !char_at(s, e, '.')
    &&& !char_at(s, e, '[')
    &&& match spec_peek_infix(s, e) {
        None => true,
        Some((op, l, r)) => l < m,
    }
}

/// A special form's tree holds its operand.
proof fn lemma_tail_grows(s: Seq<char>, a: int, op: InfixOp, lhs: Tree)
    ensures
        special_tail(s, a, op, lhs) matches Some((t, e)) ==> tree_size(lhs) <= tree_size(t),
        not_tail(s, a, lhs) matches Some((t, e)) ==> tree_size(lhs) < tree_size(Tree::Un(UniOpKind::Not, Box::new(t))),
{
    if let Some((pt, esc, e)) = like_shape(s, a) {
        assert(tree_size(like_tree(lhs, pt, esc)) >= tree_size(lhs));
    }
    if let Some((t, e)) = not_tail(s, a, lhs) {
        assert(tree_size(Tree::Un(UniOpKind::Not, Box::new(t))) == 1 + tree_size(t));
        if let Some((ts, f)) = in_items(s, a) {
            assert(tree_size(Tree::In(Box::new(lhs), ts)) >= tree_size(lhs));
        } else if let Some((pt, esc, f)) = like_shape(s, a) {
        } else if let Some((lo, hi, f)) = between_shape(s, a) {
            assert(tree_size(Tree::Between(Box::new(lhs), Box::new(lo), Box::new(hi))) >= tree_size(lhs));
        }
    }
}

/// The rest of an expression from `p` on ends where [`ended_at`] holds.
pub proof fn lemma_loop_end(s: Seq<char>, p: int, lhs: Tree, m: u8)
    requires
        0 <= p <= s.len(),
    ensures
        spec_bp_loop(s, p, lhs, m) matches Some((t, e)) ==> ended_at(s, e, m) && tree_size(lhs) <= tree_size(t),
    decreases s.len() - p,
{
    crate::text::lemma_skip_space_idem(s, p);
    let a = skip_space(s, p);
    if !(char_at(s, a, '.') || char_at(s, a, '[')) {
        match spec_peek_infix(s, a) {
            Some((op, l, r)) => if l >= m {
                match op {
                    InfixOp::BinOp(k) => {
                        let q2 = skip_space(s, a + infix_width(op));
                        if p < q2 <= s.len() {
                            if let Some((rt, e)) = spec_bp(s, q2, r) {
                                if p < e <= s.len() {
                                    lemma_loop_end(s, e, Tree::Bin(k, Box::new(lhs), Box::new(rt)), m);
                                }
                            }
                        }
                    },
                    InfixOp::Not => {
                        let q2 = skip_space(s, a + infix_width(op));
                        if p <= a < q2 <= s.len() {
                            lemma_tail_grows(s, q2, op, lhs);
                            if let Some((t, e)) = not_tail(s, q2, lhs) {
                                if p < e <= s.len() {
                                    lemma_loop_end(s, e, Tree::Un(UniOpKind::Not, Box::new(t)), m);
                                }
                            }
                        }
                    },
                    _ => if p <= a {
                        lemma_tail_grows(s, a, op, lhs);
                        if let Some((t, e)) = special_tail(s, a, op, lhs) {
                            if p < e <= s.len() {
                                lemma_loop_end(s, e, t, m);
                            }
                        }
                    },
                }
            },
            None => {},
        }
    }
}

/// An expression of the grammar ends where [`ended_at`] holds.
pub proof fn lemma_bp_end(s: Seq<char>, pos: int, m: u8)
    ensures
        spec_bp(s, pos, m) matches Some((t, e)) ==> ended_at(s, e, m),
{
    if let Some((t, q)) = spec_prefix(s, pos) {
        if pos < q <= s.len() {
            lemma_loop_end(s, q, t, m);
        }
    }
}

/// The grammar after an operand that ends at `p`, where a special form
/// (`IS`, `IN`, `LIKE`, `BETWEEN`) that binds tightly enough comes next.
proof fn lemma_loop_special(s: Seq<char>, p: int, lhs: Tree, min_bp: u8, op: InfixOp, l: u8, r: u8)
    requires
        !char_at(s, skip_space(s, p), '.'),
        !char_at(s, skip_space(s, p), '['),
        spec_peek_infix(s, skip_space(s, p)) == Some((op, l, r)),
        l >= min_bp,
        !(op is BinOp),
        !(op is Not),
        p <= skip_space(s, p),
    ensures
        spec_bp_loop(s, p, lhs, min_bp) == match special_tail(s, skip_space(s, p), op, lhs) {
            Some((t, e)) => if p < e <= s.len() {
                spec_bp_loop(s, e, t, min_bp)
            } else {
                None
            },
            None => None,
        },
{
}

/// The grammar after an operand that ends at `p`, where `NOT` that binds
/// tightly enough comes next.
proof fn lemma_loop_not(s: Seq<char>, p: int, lhs: Tree, min_bp: u8, l: u8, r: u8)
    requires
        !char_at(s, skip_space(s, p), '.'),
        !char_at(s, skip_space(s, p), '['),
        spec_peek_infix(s, skip_space(s, p)) == Some((InfixOp::Not, l, r)),
        l >= min_bp,
        p <= skip_space(s, p) < skip_space(s, skip_space(s, p) + 3) <= s.len(),
    ensures
        spec_bp_loop(s, p, lhs, min_bp) == match not_tail(s, skip_space(s, skip_space(s, p) + 3), lhs) {
            Some((t, e)) => if p < e <= s.len() {
                spec_bp_loop(s, e, Tree::Un(UniOpKind::Not, Box::new(t)), min_bp)
            } else {
                None
            },
            None => None,
        },
{
}

/// A result `r` of a primary at `p` agrees with the constructors of the
/// grammar: a list at `[` and a bag at `<<` are read as [`spec_delimited`]
/// gives them, whenever the counter before the call (`lo`) leaves room for
/// their nodes; `hi` is the counter afterwards.
pub open spec fn constructor_parsed(s: Seq<char>, p: int, lo: nat, hi: nat, r: Result<(Expr, usize), ParseError>) -> bool {
    &&& char_at(s, p, '[') ==> match spec_delimited(s, p, seq!['['], seq![']']) {
        Some((ts, e)) => lo + 1 + items_size(ts) < u32::MAX ==> (r matches Ok((Expr::List(l), q)) && q == e
            && items_are(s, ts, l.node.values@) && hi == lo + 1 + items_size(ts)),
        None => true,
    }
    &&& lit_at(s, p, seq!['<', '<']) ==> match spec_delimited(s, p, seq!['<', '<'], seq!['>', '>']) {
        Some((ts, e)) => lo + 1 + items_size(ts) < u32::MAX ==> (r matches Ok((Expr::Bag(l), q)) && q == e
            && items_are(s, ts, l.node.values@) && hi == lo + 1 + items_size(ts)),
        None => true,
    }
    &&& char_at(s, p, '(') ==> paren_parsed(s, p, lo, hi, r)
}

/// A result `r` at `(` at `p` is the parenthesised expression as
/// [`spec_bp`] reads it, followed by `)`, whenever the counter before the
/// call (`lo`) leaves room for its nodes; no node stands for the
/// parentheses themselves.
pub open spec fn paren_parsed(s: Seq<char>, p: int, lo: nat, hi: nat, r: Result<(Expr, usize), ParseError>) -> bool {
    match spec_bp(s, skip_space(s, p + 1), 0) {
        Some((t, e)) => char_at(s, e, ')') && lo + tree_size(t) < u32::MAX ==> (r matches Ok((x, q)) && q == e + 1
            && tree_is(s, t, x) && hi == lo + tree_size(t)),
        None => true,
    }
}

/// A result `r` of parsing at `pos` with minimum binding power `min_bp`
/// agrees with the grammar [`spec_bp`]: where the grammar gives a tree
/// and the counter before the call (`lo`) leaves room for the tree's
/// nodes, the parse succeeds, ends where the grammar ends, has the tree's
/// shape and takes exactly the tree's nodes (`hi` is the counter
/// afterwards).
pub open spec fn tree_parsed(s: Seq<char>, pos: int, min_bp: u8, lo: nat, hi: nat, r: Result<(Expr, usize), ParseError>) -> bool {
    match spec_bp(s, pos, min_bp) {
        Some((t, e)) => lo + tree_size(t) < u32::MAX ==> (r matches Ok((x, p)) && p == e && tree_is(s, t, x) && hi
            == lo + tree_size(t)),
        None => true,
    }
}

/// Two atoms joined by a binary operator that binds at least as tightly
/// as `min_bp`, at `pos` (after blanks), making a whole expression: the
/// operator, where the operator stands, and where the expression ends.
pub open spec fn binary_atoms(s: Seq<char>, pos: int, min_bp: u8) -> Option<(BinOpKind, int, int)> {
    match atom_end(s, skip_space(s, pos)) {
        Some(q) => {
            let a = skip_space(s, q);
            match spec_peek_infix(s, a) {
                Some((InfixOp::BinOp(k), l, rb)) => if l >= min_bp {
                    match atom_then_end(s, a + infix_width(InfixOp::BinOp(k))) {
                        Some(e) => Some((k, a, e)),
                        None => None,
                    }
                } else {
                    None
                },
                _ => None,
            }
        },
        None => None,
    }
}

/// `x` is the binary expression of [`binary_atoms`]: operator `k`
/// between the atom at `pos` (node `next`) and the atom after the
/// operator at `a` (node `next + 1`).
pub open spec fn binary_atoms_is(s: Seq<char>, pos: int, k: BinOpKind, a: int, x: Expr, next: nat) -> bool {
    match x {
        Expr::BinOp(b) => b.node.kind == k && atom_is(s, skip_space(s, pos), *b.node.lhs, next) && atom_is(
            s,
            skip_space(s, a + infix_width(InfixOp::BinOp(k))),
            *b.node.rhs,
            next + 1,
        ),
        _ => false,
    }
}

/// The shape of a path step: `.name`, `.*`, `[*]`, or `[e]` with the
/// index expression's shape.
pub enum StepShape {
    Field(Seq<char>),
    Unpivot,
    ForEach,
    Index(Tree),
}

/// The path steps from `p` on (each step, then blanks), and where they
/// end: `.` and a field name, `.*`, `[*]`, or `[` an expression `]`.
/// No answer where a step is malformed or its index is outside the
/// operator grammar.
pub open spec fn spec_steps(s: Seq<char>, p: int) -> Option<(Seq<StepShape>, int)>
    decreases s.len() - p, 3int,
{
    let a = skip_space(s, p + 1);
    if 0 <= p && char_at(s, p, '.') {
        if char_at(s, a, '*') {
            steps_then(s, p, StepShape::Unpivot, skip_space(s, a + 1))
        } else {
            match spec_identifier(s, a) {
                Some((name, q)) => steps_then(s, p, StepShape::Field(name), skip_space(s, q)),
                None => None,
            }
        }
    } else if 0 <= p && char_at(s, p, '[') {
        if char_at(s, a, '*') && char_at(s, skip_space(s, a + 1), ']') {
            steps_then(s, p, StepShape::ForEach, skip_space(s, skip_space(s, a + 1) + 1))
        } else if p < a <= s.len() {
            match spec_bp(s, a, 0) {
                Some((t, e)) => if char_at(s, e, ']') {
                    steps_then(s, p, StepShape::Index(t), skip_space(s, e + 1))
                } else {
                    None
                },
                None => None,
            }
        } else {
            None
        }
    } else {
        Some((Seq::empty(), p))
    }
}

/// The step shapes from `p` on, where there are any.
pub open spec fn rest_shapes(s: Seq<char>, p: int) -> Seq<StepShape> {
    match spec_steps(s, p) {
        Some((rest, f)) => rest,
        None => Seq::empty(),
    }
}

/// Where the steps from `p` on end, where they are well formed.
pub open spec fn rest_end(s: Seq<char>, p: int) -> int {
    match spec_steps(s, p) {
        Some((rest, f)) => f,
        None => p,
    }
}

/// One step `st` at `p`, then the steps from `next` on.
pub open spec fn steps_then(s: Seq<char>, p: int, st: StepShape, next: int) -> Option<(Seq<StepShape>, int)>
    decreases s.len() - p, 2int,
{
    if p < next <= s.len() {
        match spec_steps(s, next) {
            Some((rest, f)) => Some((seq![st] + rest, f)),
            None => None,
        }
    } else {
        None
    }
}

/// How many nodes the parser builds for a path step: the field name's
/// literal, or the index expression's nodes.
pub open spec fn step_size(st: StepShape) -> nat {
    match st {
        StepShape::Field(name) => 1,
        StepShape::Index(t) => tree_size(t),
        _ => 0,
    }
}

/// How many nodes the parser builds for path steps of shapes `sts`.
pub open spec fn steps_size(sts: Seq<StepShape>) -> nat
    decreases sts.len(),
{
    if sts.len() == 0 {
        0
    } else {
        steps_size(sts.subrange(0, sts.len() - 1)) + step_size(sts[sts.len() - 1])
    }
}

/// The size of steps read in two parts is the sum of the parts' sizes.
pub proof fn lemma_steps_size_concat(a: Seq<StepShape>, b: Seq<StepShape>)
    ensures
        steps_size(a + b) == steps_size(a) + steps_size(b),
    decreases b.len(),
{
    if b.len() == 0 {
        assert(a + b =~= a);
    } else {
        let b0 = b.subrange(0, b.len() - 1);
        lemma_steps_size_concat(a, b0);
        assert((a + b).subrange(0, (a + b).len() - 1) =~= a + b0);
    }
}

/// One more step adds its size.
pub proof fn lemma_steps_size_push(sts: Seq<StepShape>, st: StepShape)
    ensures
        steps_size(sts.push(st)) == steps_size(sts) + step_size(st),
{
    assert(sts.push(st).subrange(0, sts.len() as int) =~= sts);
}

/// The first step of `sts` and the rest.
pub proof fn lemma_steps_size_first(sts: Seq<StepShape>)
    requires
        sts.len() > 0,
    ensures
        steps_size(sts) == step_size(sts[0]) + steps_size(sts.subrange(1, sts.len() as int)),
{
    let one = seq![sts[0]];
    lemma_steps_size_concat(one, sts.subrange(1, sts.len() as int));
    assert(one + sts.subrange(1, sts.len() as int) =~= sts);
    lemma_steps_size_push(Seq::empty(), sts[0]);
    assert(Seq::<StepShape>::empty().push(sts[0]) =~= one);
}

/// The path step `ps` has the shape `st`: a field name becomes a
/// projection by the name as a string literal, an index a `PathIndex`.
pub open spec fn step_is(s: Seq<char>, st: StepShape, ps: PathStep) -> bool {
    match st {
        StepShape::Field(name) => match ps {
            PathStep::PathProject(pe) => match *pe.index {
                Expr::Lit(l) => l.node matches Lit::CharStringLit(f) && f@ == name,
                _ => false,
            },
            _ => false,
        },
        StepShape::Unpivot => ps matches PathStep::PathUnpivot,
        StepShape::ForEach => ps matches PathStep::PathForEach,
        StepShape::Index(t) => match ps {
            PathStep::PathIndex(pe) => tree_is(s, t, *pe.index),
            _ => false,
        },
    }
}

/// The steps `steps`, from index `from` on, have the shapes `sts`.
pub open spec fn steps_are(s: Seq<char>, sts: Seq<StepShape>, steps: Seq<PathStep>, from: int) -> bool {
    &&& steps.len() == from + sts.len()
    &&& forall|i: int| 0 <= i < sts.len() ==> step_is(s, #[trigger] sts[i], steps[from + i])
}

/// One more step read: the steps from `pos` are those read so far, this
/// one, and the steps from `next`.
proof fn lemma_steps_push(
    s: Seq<char>,
    pos: int,
    p: int,
    next: int,
    done: Seq<StepShape>,
    st: StepShape,
    steps: Seq<PathStep>,
    base: int,
)
    requires
        base >= 0,
        spec_steps(s, p) is Some,
        spec_steps(s, pos) == Some((done + rest_shapes(s, p), rest_end(s, p))),
        spec_steps(s, p) == steps_then(s, p, st, next),
        steps.len() > 0,
        steps_are(s, done, steps.drop_last(), base),
        step_is(s, st, steps.last()),
    ensures
        spec_steps(s, next) is Some,
        spec_steps(s, pos) == Some((done.push(st) + rest_shapes(s, next), rest_end(s, next))),
        steps_are(s, done.push(st), steps, base),
{
    let rest = rest_shapes(s, next);
    assert(done + (seq![st] + rest) =~= done.push(st) + rest);
    assert forall|i: int| 0 <= i < done.push(st).len() implies step_is(s, #[trigger] done.push(st)[i], steps[base + i]) by {
        if i < done.len() {
            assert(steps.drop_last()[base + i] == steps[base + i]);
        }
    }
}

/// How many steps `e` has when it is a path; none otherwise.
pub open spec fn path_len(e: Expr) -> int {
    match e {
        Expr::Path(l) => l.node.steps@.len() as int,
        _ => 0,
    }
}

/// Comma-separated expressions from `p` on, each in the operator grammar
/// (see [`spec_bp`]), the last followed by `close`: their shapes, and the
/// position after `close`.
pub open spec fn spec_items(s: Seq<char>, p: int, close: Seq<char>) -> Option<(Seq<Tree>, int)>
    decreases s.len() - p, 4int,
{
    let q = skip_space(s, p);
    if 0 <= p <= q <= s.len() {
        match spec_bp(s, q, 0) {
            Some((t, e)) => if q < e <= s.len() {
                if char_at(s, e, ',') {
                    match spec_items(s, e + 1, close) {
                        Some((ts, f)) => Some((seq![t] + ts, f)),
                        None => None,
                    }
                } else if lit_at(s, e, close) {
                    Some((seq![t], e + close.len()))
                } else {
                    None
                }
            } else {
                None
            },
            None => None,
        }
    } else {
        None
    }
}

/// The shapes of the items from `p` on, where they are well formed.
pub open spec fn items_rest(s: Seq<char>, p: int, close: Seq<char>) -> Seq<Tree> {
    match spec_items(s, p, close) {
        Some((ts, f)) => ts,
        None => Seq::empty(),
    }
}

/// Where the items from `p` on end, where they are well formed.
pub open spec fn items_end(s: Seq<char>, p: int, close: Seq<char>) -> int {
    match spec_items(s, p, close) {
        Some((ts, f)) => f,
        None => p,
    }
}

/// Delimited items: `open`, blanks, then either `close` at once or the
/// items of [`spec_items`]; their shapes and where the whole ends.
pub open spec fn spec_delimited(s: Seq<char>, pos: int, open: Seq<char>, close: Seq<char>) -> Option<(Seq<Tree>, int)>
    decreases s.len() - pos, 0int,
{
    let p2 = skip_space(s, pos + open.len());
    if lit_at(s, pos, open) {
        if lit_at(s, p2, close) {
            Some((Seq::empty(), p2 + close.len()))
        } else if pos < p2 <= s.len() {
            spec_items(s, p2, close)
        } else {
            None
        }
    } else {
        None
    }
}

/// The sizes of items read so far, one more item, and the rest.
pub proof fn lemma_items_step_size(done: Seq<Tree>, t: Tree, rest: Seq<Tree>)
    ensures
        items_size(seq![t]) == tree_size(t),
        items_size(seq![t] + rest) == tree_size(t) + items_size(rest),
        items_size(done.push(t)) == items_size(done) + tree_size(t),
        items_size(done + (seq![t] + rest)) == items_size(done) + tree_size(t) + items_size(rest),
{
    lemma_items_size_push(Seq::empty(), t);
    assert(Seq::<Tree>::empty().push(t) =~= seq![t]);
    lemma_items_size_concat(seq![t], rest);
    lemma_items_size_push(done, t);
    lemma_items_size_concat(done, seq![t] + rest);
}

/// The first of the items from `p` on is the expression that stands at
/// `p`, so it is no larger than all of them.
pub proof fn lemma_items_first(s: Seq<char>, p: int, close: Seq<char>, t: Tree)
    requires
        spec_items(s, p, close) is Some,
        spec_bp(s, skip_space(s, p), 0) matches Some((t0, e)) && t0 == t,
    ensures
        tree_size(t) <= items_size(items_rest(s, p, close)),
{
    let ts = items_rest(s, p, close);
    let rest = ts.subrange(1, ts.len() as int);
    assert(ts =~= seq![t] + rest);
    lemma_items_step_size(Seq::empty(), t, rest);
}

/// One item `t` read at `p` (it ends at `e`): the items from `p0` are
/// those read so far, this one, and either the items after the comma at
/// `e`, or none where `close` stands at `e`.
pub proof fn lemma_items_step(
    s: Seq<char>,
    p0: int,
    p: int,
    close: Seq<char>,
    done: Seq<Tree>,
    t: Tree,
    e: int,
)
    requires
        spec_items(s, p, close) is Some,
        spec_items(s, p0, close) == Some((done + items_rest(s, p, close), items_end(s, p, close))),
        spec_bp(s, skip_space(s, p), 0) == Some((t, e)),
    ensures
        char_at(s, e, ',') ==> spec_items(s, e + 1, close) is Some && spec_items(s, p0, close) == Some(
            (done.push(t) + items_rest(s, e + 1, close), items_end(s, e + 1, close)),
        ),
        !char_at(s, e, ',') ==> lit_at(s, e, close) && spec_items(s, p0, close) == Some(
            (done.push(t), e + close.len()),
        ),
{
    if char_at(s, e, ',') {
        assert(done + (seq![t] + items_rest(s, e + 1, close)) =~= done.push(t) + items_rest(s, e + 1, close));
    } else {
        assert(done + seq![t] =~= done.push(t));
    }
}

/// One more expression `x` of shape `t` appended to items that match.
pub proof fn lemma_items_push(s: Seq<char>, ts: Seq<Tree>, xs: Seq<Box<Expr>>, t: Tree, x: Box<Expr>)
    requires
        items_are(s, ts, xs),
        tree_is(s, t, *x),
    ensures
        items_are(s, ts.push(t), xs.push(x)),
{
    assert forall|i: int| 0 <= i < ts.push(t).len() implies tree_is(s, #[trigger] ts.push(t)[i], *xs.push(x)[i]) by {
        if i < ts.len() {
            assert(ts.push(t)[i] == ts[i]);
            assert(xs.push(x)[i] == xs[i]);
        }
    }
}

/// A single path step at `pos` that stands on its own: `.*`, `[*]`, or
/// `.` and a field name. The position after the blanks that follow it,
/// and how many nodes it takes.
pub open spec fn simple_step(s: Seq<char>, pos: int) -> Option<(int, nat)> {
    let a = skip_space(s, pos + 1);
    if char_at(s, pos, '.') {
        if char_at(s, a, '*') {
            Some((skip_space(s, a + 1), 0))
        } else {
            match spec_identifier(s, a) {
                Some((name, q)) => Some((skip_space(s, q), 1)),
                None => None,
            }
        }
    } else if char_at(s, pos, '[') && char_at(s, a, '*') && char_at(s, skip_space(s, a + 1), ']') {
        Some((skip_space(s, skip_space(s, a + 1) + 1), 0))
    } else {
        None
    }
}

/// Where no prefix operator and no bracket opens the expression at `pos`,
/// a primary that reads atoms, constructors and calls as the grammar does
/// reads the grammar's prefix.
proof fn lemma_prefix_primary(s: Seq<char>, pos: int, p0: int, lo: nat, hi: nat, r: Result<(Expr, usize), ParseError>)
    requires
        0 <= pos <= s.len(),
        p0 == skip_space(s, pos),
        !char_at(s, p0, '-'),
        !char_at(s, p0, '+'),
        spec_kw_ws(s, p0, "NOT"@) is None,
        atom_parsed(s, p0, lo, hi, r),
        constructor_parsed(s, skip_space(s, p0), lo, hi, r),
        call_parsed(s, skip_space(s, p0), lo, hi, r),
    ensures
        match spec_prefix(s, pos) {
            Some((t, e)) => lo + tree_size(t) < u32::MAX ==> (r matches Ok((x, p)) && p == e && tree_is(s, t, x)
                && hi == lo + tree_size(t)),
            None => true,
        },
{
    crate::text::lemma_skip_space_idem(s, pos);
    crate::text::lemma_skip_space(s, pos);
    if let Some(q) = atom_end(s, p0) {
        lemma_atom_start(s, p0);
    }
}

impl PrattParser {
    pub fn new() -> (r: Self) {
        PrattParser { primary: PrimaryStrategy::new() }
    }

    /// Parse a full expression (minimum binding power 0).
    pub fn parse_expr(&self, s: &[char], pos: usize, pctx: &mut ParseContext) -> (r: Result<
        (Expr, usize),
        ParseError,
    >)
        requires
            pos <= s@.len(),
        ensures
            old(pctx).next() <= final(pctx).next(),
            expr_parsed(s@, pos as int, old(pctx).next(), final(pctx).next(), r),
            r matches Ok((e, p)) ==> p == skip_space(s@, p as int) && stops_at(s@, p as int, 0),
            lone_atom_parsed(s@, pos as int, old(pctx).next(), final(pctx).next(), r),
            atom_then_parsed(s@, pos as int, old(pctx).next(), final(pctx).next(), r),
            match binary_atoms(s@, pos as int, 0) {
                Some((k, a, e)) => old(pctx).next() + 3 < u32::MAX ==> (r matches Ok((x, p)) && p == e
                    && binary_atoms_is(s@, pos as int, k, a, x, old(pctx).next()) && final(pctx).next()
                    == old(pctx).next() + 3),
                None => true,
            },
            tree_parsed(s@, pos as int, 0, old(pctx).next() as nat, final(pctx).next() as nat, r),
        decreases s@.len() - pos, 7nat,
    {
        self.parse_bp(s, pos, pctx, 0)
    }

    /// Parse the prefix part: `-` / `+` / `NOT` operand, or a primary.
    #[verifier::rlimit(100)]
    #[verifier::spinoff_prover]
    fn parse_prefix(&self, s: &[char], pos: usize, pctx: &mut ParseContext) -> (r: Result<
        (Expr, usize),
        ParseError,
    >)
        requires
            pos <= s@.len(),
        ensures
            old(pctx).next() <= final(pctx).next(),
            expr_parsed(s@, pos as int, old(pctx).next(), final(pctx).next(), r),
            atom_parsed(s@, pos as int, old(pctx).next(), final(pctx).next(), r),
            match spec_prefix(s@, pos as int) {
                Some((t, e)) => old(pctx).next() + tree_size(t) < u32::MAX ==> (r matches Ok((x, p)) && p == e
                    && tree_is(s@, t, x) && final(pctx).next() == old(pctx).next() + tree_size(t)),
                None => true,
            },
        decreases s@.len() - pos, 5nat,
    {
        let n = s.len();
        let p0 = ws0(s, pos);
        proof {
            reveal_strlit("NOT");
            crate::text::lemma_skip_space_idem(s@, pos as int);
            if atom_end(s@, p0 as int) is Some {
                lemma_atom_start(s@, p0 as int);
            }
        }
        if p0 < n && s[p0] == '-' {
            let p1 = ws0(s, p0 + 1);
            match self.parse_bp(s, p1, pctx, PREFIX_BP) {
                Ok((rhs, q)) => {
                    let node = pctx.node(UniOp { kind: UniOpKind::Neg, expr: Box::new(rhs) })?;
                    Ok((Expr::UniOp(node), q))
                },
                Err(_) => self.parse_primary(s, p0, pctx),
            }
        } else if p0 < n && s[p0] == '+' {
            let p1 = ws0(s, p0 + 1);
            let (rhs, q) = self.parse_bp(s, p1, pctx, PREFIX_BP)?;
            let node = pctx.node(UniOp { kind: UniOpKind::Pos, expr: Box::new(rhs) })?;
            Ok((Expr::UniOp(node), q))
        } else {
            match kw(s, p0, "NOT") {
                Some(q1) => match ws(s, q1) {
                    Some(q2) => {
                        let (rhs, q) = self.parse_bp(s, q2, pctx, NOT_PREFIX_BP)?;
                        let node = pctx.node(UniOp { kind: UniOpKind::Not, expr: Box::new(rhs) })?;
                        Ok((Expr::UniOp(node), q))
                    },
                    None => {
                        let ghost lo = pctx.next();
                        let res = self.parse_primary(s, p0, pctx);
                        proof {
                            assert(spec_kw_ws(s@, p0 as int, "NOT"@) is None);
                            lemma_prefix_primary(s@, pos as int, p0 as int, lo as nat, pctx.next() as nat, res);
                        }
                        res
                    },
                },
                None => {
                    let ghost lo = pctx.next();
                    let res = self.parse_primary(s, p0, pctx);
                    proof {
                        assert(spec_kw_ws(s@, p0 as int, "NOT"@) is None);
                        lemma_prefix_primary(s@, pos as int, p0 as int, lo as nat, pctx.next() as nat, res);
                    }
                    res
                },
            }
        }
    }

    /// Core Pratt loop: parse an expression whose infix operators bind at
    /// least as tightly as `min_bp`.
    ///
    /// Ends after the whitespace that follows the expression, where
    /// [`stops_at`] holds.
    #[verifier::rlimit(100)]
    #[verifier::spinoff_prover]
    pub fn parse_bp(&self, s: &[char], pos: usize, pctx: &mut ParseContext, min_bp: u8) -> (r:
        Result<(Expr, usize), ParseError>)
        requires
            pos <= s@.len(),
        ensures
            old(pctx).next() <= final(pctx).next(),
            expr_parsed(s@, pos as int, old(pctx).next(), final(pctx).next(), r),
            r matches Ok((e, p)) ==> p == skip_space(s@, p as int) && stops_at(s@, p as int, min_bp),
            lone_atom_parsed(s@, pos as int, old(pctx).next(), final(pctx).next(), r),
            atom_then_parsed(s@, pos as int, old(pctx).next(), final(pctx).next(), r),
            match binary_atoms(s@, pos as int, min_bp) {
                Some((k, a, e)) => old(pctx).next() + 3 < u32::MAX ==> (r matches Ok((x, p)) && p == e
                    && binary_atoms_is(s@, pos as int, k, a, x, old(pctx).next()) && final(pctx).next()
                    == old(pctx).next() + 3),
                None => true,
            },
            tree_parsed(s@, pos as int, min_bp, old(pctx).next() as nat, final(pctx).next() as nat, r),
        decreases s@.len() - pos, 6nat,
    {
        let ghost lo = pctx.next();
        let n = s.len();
        let ghost good = spec_bp(s@, pos as int, min_bp) is Some;
        let ghost bigt: Tree = match spec_bp(s@, pos as int, min_bp) {
            Some((t, e)) => t,
            None => Tree::Atom(0),
        };
        let ghost fits = good && lo + tree_size(bigt) < u32::MAX;
        proof {
            if good {
                if let Some((t0, q0)) = spec_prefix(s@, pos as int) {
                    lemma_loop_end(s@, q0, t0, min_bp);
                }
            }
        }
        let (mut lhs, mut p) = self.parse_prefix(s, pos, pctx)?;
        let ghost mut tl: Tree = match spec_prefix(s@, pos as int) {
            Some((t, q)) => t,
            None => Tree::Atom(0),
        };
        let ghost bk: BinOpKind = match binary_atoms(s@, pos as int, min_bp) {
            Some((k, a, e)) => k,
            None => BinOpKind::Add,
        };
        let ghost ba: int = match binary_atoms(s@, pos as int, min_bp) {
            Some((k, a, e)) => a,
            None => 0,
        };
        let ghost be: int = match binary_atoms(s@, pos as int, min_bp) {
            Some((k, a, e)) => e,
            None => 0,
        };
        let ghost bin = binary_atoms(s@, pos as int, min_bp) is Some && lo + 3 < u32::MAX;
        proof {
            if bin {
                lemma_atom_then_fixed(s@, ba + infix_width(InfixOp::BinOp(bk)));
            }
        }
        let ghost lone = atom_then_end(s@, pos as int) is Some && lo < u32::MAX;
        let ghost lhs0 = lhs;
        let ghost p0 = p;
        proof {
            lemma_lone_ends(s@, pos as int);
            if lone {
                assert(atom_end(s@, skip_space(s@, pos as int)) == Some(p0 as int));
                assert(expr_ends_at(s@, skip_space(s@, p0 as int)));
            }
        }
        loop
            invariant_except_break
                lone ==> lhs == lhs0 && p == p0 && pctx.next() == lo + 1 && atom_then_end(s@, pos as int) == Some(
                    skip_space(s@, p0 as int),
                ) && expr_ends_at(s@, skip_space(s@, p0 as int)),
                bin ==> (lhs == lhs0 && p == p0 && pctx.next() == lo + 1) || (p == be && binary_atoms_is(
                    s@,
                    pos as int,
                    bk,
                    ba,
                    lhs,
                    lo,
                ) && pctx.next() == lo + 3),
                fits ==> spec_bp(s@, pos as int, min_bp) == spec_bp_loop(
                    s@,
                    p as int,
                    tl,
                    min_bp,
                ) && tree_is(s@, tl, lhs) && pctx.next() == lo + tree_size(tl),
            invariant
                good == (spec_bp(s@, pos as int, min_bp) is Some),
                fits == (good && lo + tree_size(bigt) < u32::MAX),
                good ==> (spec_bp(s@, pos as int, min_bp) matches Some((t, e)) && t == bigt),
                binary_atoms(s@, pos as int, min_bp) is Some ==> binary_atoms(s@, pos as int, min_bp) == Some(
                    (bk, ba, be),
                ),
                bin == (binary_atoms(s@, pos as int, min_bp) is Some && lo + 3 < u32::MAX),
                bin ==> atom_is(s@, skip_space(s@, pos as int), lhs0, lo) && skip_space(s@, p0 as int) == ba
                    && skip_space(s@, be) == be && expr_ends_at(s@, be) && atom_then_end(
                    s@,
                    skip_space(s@, ba + infix_width(InfixOp::BinOp(bk))),
                ) == Some(be) && match spec_peek_infix(s@, ba) {
                    Some((InfixOp::BinOp(kk), ll, rr)) => kk == bk && ll >= min_bp,
                    _ => false,
                },
                lone == (atom_then_end(s@, pos as int) is Some && lo < u32::MAX),
                lone_atom_end(s@, pos as int) is Some ==> atom_then_end(s@, pos as int) == lone_atom_end(s@, pos as int),
                n == s@.len(),
                pos < p <= s@.len(),
                lo <= pctx.next(),
                lo == old(pctx).next(),
                ids_within(expr_ids(lhs), lo, pctx.next()),
            ensures
                pos < p <= s@.len(),
                lo <= pctx.next(),
                ids_within(expr_ids(lhs), lo, pctx.next()),
                p == skip_space(s@, p as int),
                stops_at(s@, p as int, min_bp),
                lone ==> lhs == lhs0 && p == skip_space(s@, p0 as int) && pctx.next() == lo + 1,
                bin ==> p == be && binary_atoms_is(s@, pos as int, bk, ba, lhs, lo) && pctx.next() == lo + 3,
                fits ==> spec_bp(s@, pos as int, min_bp) == Some((tl, p as int)) && tree_is(s@, tl, lhs)
                    && pctx.next() == lo + tree_size(tl),
            decreases s@.len() - p,
        {
            let q = ws0(s, p);
            proof {
                crate::text::lemma_skip_space(s@, q as int);
                crate::text::lemma_skip_space_idem(s@, p as int);
            }
            if q < n && (s[q] == '.' || s[q] == '[') {
                let (e, q2) = self.try_postfix(s, q, pctx, lhs)?;
                lhs = e;
                p = q2;
                continue ;
            }
            match peek_infix(s, q) {
                None => {
                    p = q;
                    break ;
                },
                Some((op, l_bp, r_bp)) => {
                    if l_bp < min_bp {
                        p = q;
                        break ;
                    }
                    let q1 = consume_infix(s, q, op);
                    let ghost mid = pctx.next();
                    match op {
                        InfixOp::BinOp(kind) => {
                            let q2 = ws0(s, q1);
                            let ghost rt = match spec_bp(s@, q2 as int, r_bp) {
                                Some((t, e)) => t,
                                None => Tree::Atom(0),
                            };
                            let ghost ert = match spec_bp(s@, q2 as int, r_bp) {
                                Some((t, e)) => e,
                                None => 0,
                            };
                            let ghost tl_before = tl;
                            let ghost lhs_before = lhs;
                            proof {
                                if fits && 0 <= ert <= s@.len() {
                                    lemma_loop_end(s@, ert, Tree::Bin(kind, Box::new(tl), Box::new(rt)), min_bp);
                                }
                            }
                            let (rhs, q3) = self.parse_bp(s, q2, pctx, r_bp)?;
                            let node = pctx.node(
                                BinOp { kind, lhs: Box::new(lhs), rhs: Box::new(rhs) },
                            )?;
                            proof {
                                tl = Tree::Bin(kind, Box::new(tl_before), Box::new(rt));
                            }
                            lhs = Expr::BinOp(node);
                            p = q3;
                        },
                        InfixOp::Not => {
                            let q2 = ws0(s, q1);
                            let ghost tl_before = tl;
                            let ghost nt = not_tail(s@, q2 as int, tl);
                            proof {
                                crate::text::lemma_skip_space(s@, q1 as int);
                                if fits {
                                    lemma_loop_not(s@, p as int, tl, min_bp, l_bp, r_bp);
                                    if let Some((t, e2)) = nt {
                                        if 0 <= e2 <= s@.len() {
                                            lemma_loop_end(s@, e2, Tree::Un(UniOpKind::Not, Box::new(t)), min_bp);
                                        }
                                    }
                                }
                            }
                            match self.not_form(s, q2, pctx, lhs, Ghost(tl)) {
                                Ok((e, q3)) => {
                                    proof {
                                        if let Some((t, e2)) = nt {
                                            tl = Tree::Un(UniOpKind::Not, Box::new(t));
                                        }
                                    }
                                    lhs = e;
                                    p = q3;
                                },
                                Err((Some(l), ParseError::Backtrack)) => {
                                    lhs = l;
                                    p = q;
                                    break ;
                                },
                                Err((_, e)) => {
                                    return Err(e);
                                },
                            }
                        },
                        _ => {
                            let ghost st = special_tail(s@, q as int, op, tl);
                            proof {
                                if fits {
                                    lemma_loop_special(s@, p as int, tl, min_bp, op, l_bp, r_bp);
                                    if let Some((t, e2)) = st {
                                        if 0 <= e2 <= s@.len() {
                                            lemma_loop_end(s@, e2, t, min_bp);
                                        }
                                        if let Some((pt, esc, f)) = like_shape(s@, q as int) {
                                            assert(tree_size(like_tree(tl, pt, esc)) == tree_size(tl) + 1 + tree_size(pt)
                                                + opt_size(esc));
                                        }
                                    }
                                }
                            }
                            let res = match op {
                                InfixOp::Is => IsParser.parse(self, s, q1, pctx, lhs),
                                InfixOp::In => InParser.parse(self, s, q1, pctx, lhs),
                                InfixOp::Like => LikeParser.parse(self, s, q1, pctx, lhs),
                                _ => BetweenParser.parse(self, s, q1, pctx, lhs),
                            };
                            match res {
                                Ok((e, q3)) => {
                                    proof {
                                        if let Some((t, e2)) = st {
                                            tl = t;
                                        }
                                    }
                                    lhs = e;
                                    p = q3;
                                },
                                Err((Some(l), ParseError::Backtrack)) => {
                                    lhs = l;
                                    p = q;
                                    break ;
                                },
                                Err((_, e)) => {
                                    return Err(e);
                                },
                            }
                        },
                    }
                },
            }
        }
        Ok((lhs, p))
    }

    /// `NOT IN`, `NOT LIKE`, `NOT BETWEEN` after `NOT` and blanks: the
    /// first form that matches, wrapped in `NOT`.
    fn not_form(&self, s: &[char], pos: usize, pctx: &mut ParseContext, left: Expr, Ghost(tl): Ghost<Tree>) -> (r: Result<
        (Expr, usize),
        (Option<Expr>, ParseError),
    >)
        requires
            pos <= s@.len(),
        ensures
            old(pctx).next() <= final(pctx).next(),
            extends_left(s@, pos as int, left, old(pctx).next(), final(pctx).next(), r),
            r matches Ok((e, p)) ==> e matches Expr::UniOp(u) && u.node.kind == UniOpKind::Not,
            tree_is(s@, tl, left) ==> match not_tail(s@, pos as int, tl) {
                Some((t, e)) => old(pctx).next() + tree_size(Tree::Un(UniOpKind::Not, Box::new(t))) < u32::MAX
                    + tree_size(tl) ==> (r matches Ok((x, p)) && p == e && tree_is(
                    s@,
                    Tree::Un(UniOpKind::Not, Box::new(t)),
                    x,
                ) && final(pctx).next() + tree_size(tl) == old(pctx).next() + tree_size(
                    Tree::Un(UniOpKind::Not, Box::new(t)),
                )),
                None => true,
            },
        decreases s@.len() - pos, 5nat,
    {
        proof {
            reveal_strlit("IN");
            reveal_strlit("LIKE");
            reveal_strlit("BETWEEN");
            if spec_kw_ws0(s@, pos as int, "IN"@) is Some {
                crate::text::lemma_kw_first(s@, pos as int, "IN"@);
            }
            if spec_kw_ws(s@, pos as int, "LIKE"@) is Some {
                crate::text::lemma_kw_first(s@, pos as int, "LIKE"@);
            }
            if spec_kw_ws(s@, pos as int, "BETWEEN"@) is Some {
                crate::text::lemma_kw_first(s@, pos as int, "BETWEEN"@);
            }
        }
        let left = match self.not_in(s, pos, pctx, left, Ghost(tl)) {
            Err((Some(l), ParseError::Backtrack)) => l,
            res => {
                return res;
            },
        };
        let left = match self.not_like(s, pos, pctx, left, Ghost(tl)) {
            Err((Some(l), ParseError::Backtrack)) => l,
            res => {
                return res;
            },
        };
        self.not_between(s, pos, pctx, left, Ghost(tl))
    }

    /// `NOT IN` after `NOT` and blanks, applied to `left`.
    #[verifier::spinoff_prover]
    fn not_in(&self, s: &[char], pos: usize, pctx: &mut ParseContext, left: Expr, Ghost(tl): Ghost<Tree>) -> (r: Result<
        (Expr, usize),
        (Option<Expr>, ParseError),
    >)
        requires
            pos <= s@.len(),
        ensures
            old(pctx).next() <= final(pctx).next(),
            extends_left(s@, pos as int, left, old(pctx).next(), final(pctx).next(), r),
            r matches Ok((e, p)) ==> e matches Expr::UniOp(u) && u.node.kind == UniOpKind::Not,
            !in_opens_at(s@, pos as int) ==> r == Err::<(Expr, usize), (Option<Expr>, ParseError)>(
                (Some(left), ParseError::Backtrack)) && final(pctx).next() == old(pctx).next(),
            tree_is(s@, tl, left) ==> match in_items(s@, pos as int) {
                Some((ts, f)) => old(pctx).next() + tree_size(Tree::Un(UniOpKind::Not, Box::new(Tree::In(Box::new(tl), ts)))) < u32::MAX
                    + tree_size(tl) ==> (r matches Ok((x, p)) && p == f && tree_is(
                    s@,
                    Tree::Un(UniOpKind::Not, Box::new(Tree::In(Box::new(tl), ts))),
                    x,
                ) && final(pctx).next() + tree_size(tl) == old(pctx).next() + tree_size(
                    Tree::Un(UniOpKind::Not, Box::new(Tree::In(Box::new(tl), ts))),
                )),
                None => true,
            },
        decreases s@.len() - pos, 4nat,
    {
        let ghost lo = pctx.next();
        let ghost left0 = left;
        proof {
            if tree_is(s@, tl, left) {
                if let Some((ts, f)) = in_items(s@, pos as int) {
                    assert(tree_size(Tree::In(Box::new(tl), ts)) == tree_size(tl) + items_size(ts) + 2);
                }
            }
        }
        match InParser.parse(self, s, pos, pctx, left) {
            Ok((e, q)) => {
                let ghost e_ids = expr_ids(e);
                let ghost ee = e;
                proof {
                    if tree_is(s@, tl, left0) {
                        if let Some((ts, f)) = in_items(s@, pos as int) {
                            assert(tree_size(Tree::Un(UniOpKind::Not, Box::new(Tree::In(Box::new(tl), ts)))) == 1 + tree_size(Tree::In(Box::new(tl), ts)));
                            if lo + tree_size(Tree::Un(UniOpKind::Not, Box::new(Tree::In(Box::new(tl), ts)))) < u32::MAX + tree_size(tl) {
                                assert(tree_is(s@, Tree::In(Box::new(tl), ts), ee));
                            }
                        }
                    }
                }
                let node = match pctx.node(UniOp { kind: UniOpKind::Not, expr: Box::new(e) }) {
                    Ok(node) => node,
                    Err(err) => {
                        return Err((None, err));
                    },
                };
                proof {
                    assert(expr_ids(Expr::UniOp(node)) =~= e_ids.insert(node.id.0 as nat));
                }
                Ok((Expr::UniOp(node), q))
            },
            Err(e) => Err(e),
        }
    }

    /// `NOT LIKE` after `NOT` and blanks, applied to `left`.
    #[verifier::spinoff_prover]
    fn not_like(&self, s: &[char], pos: usize, pctx: &mut ParseContext, left: Expr, Ghost(tl): Ghost<Tree>) -> (r: Result<
        (Expr, usize),
        (Option<Expr>, ParseError),
    >)
        requires
            pos <= s@.len(),
        ensures
            old(pctx).next() <= final(pctx).next(),
            extends_left(s@, pos as int, left, old(pctx).next(), final(pctx).next(), r),
            r matches Ok((e, p)) ==> e matches Expr::UniOp(u) && u.node.kind == UniOpKind::Not,
            spec_kw_ws(s@, pos as int, "LIKE"@) is None ==> r == Err::<(Expr, usize), (Option<Expr>, ParseError)>(
                (Some(left), ParseError::Backtrack)) && final(pctx).next() == old(pctx).next(),
            tree_is(s@, tl, left) ==> match like_shape(s@, pos as int) {
                Some((pt, esc, f)) => old(pctx).next() + tree_size(Tree::Un(UniOpKind::Not, Box::new(like_tree(tl, pt, esc)))) < u32::MAX
                    + tree_size(tl) ==> (r matches Ok((x, p)) && p == f && tree_is(
                    s@,
                    Tree::Un(UniOpKind::Not, Box::new(like_tree(tl, pt, esc))),
                    x,
                ) && final(pctx).next() + tree_size(tl) == old(pctx).next() + tree_size(
                    Tree::Un(UniOpKind::Not, Box::new(like_tree(tl, pt, esc))),
                )),
                None => true,
            },
        decreases s@.len() - pos, 4nat,
    {
        let ghost lo = pctx.next();
        let ghost left0 = left;
        proof {
            if tree_is(s@, tl, left) {
                if let Some((pt, esc, f)) = like_shape(s@, pos as int) {
                    assert(tree_size(like_tree(tl, pt, esc)) == tree_size(tl) + 1 + tree_size(pt) + opt_size(esc));
                }
            }
        }
        match LikeParser.parse(self, s, pos, pctx, left) {
            Ok((e, q)) => {
                let ghost e_ids = expr_ids(e);
                let ghost ee = e;
                proof {
                    if tree_is(s@, tl, left0) {
                        if let Some((pt, esc, f)) = like_shape(s@, pos as int) {
                            assert(tree_size(Tree::Un(UniOpKind::Not, Box::new(like_tree(tl, pt, esc)))) == 1 + tree_size(like_tree(tl, pt, esc)));
                            if lo + tree_size(Tree::Un(UniOpKind::Not, Box::new(like_tree(tl, pt, esc)))) < u32::MAX + tree_size(tl) {
                                assert(tree_is(s@, like_tree(tl, pt, esc), ee));
                            }
                        }
                    }
                }
                let node = match pctx.node(UniOp { kind: UniOpKind::Not, expr: Box::new(e) }) {
                    Ok(node) => node,
                    Err(err) => {
                        return Err((None, err));
                    },
                };
                proof {
                    assert(expr_ids(Expr::UniOp(node)) =~= e_ids.insert(node.id.0 as nat));
                }
                Ok((Expr::UniOp(node), q))
            },
            Err(e) => Err(e),
        }
    }

    /// `NOT BETWEEN` after `NOT` and blanks, applied to `left`.
    #[verifier::spinoff_prover]
    fn not_between(&self, s: &[char], pos: usize, pctx: &mut ParseContext, left: Expr, Ghost(tl): Ghost<Tree>) -> (r: Result<
        (Expr, usize),
        (Option<Expr>, ParseError),
    >)
        requires
            pos <= s@.len(),
        ensures
            old(pctx).next() <= final(pctx).next(),
            extends_left(s@, pos as int, left, old(pctx).next(), final(pctx).next(), r),
            r matches Ok((e, p)) ==> e matches Expr::UniOp(u) && u.node.kind == UniOpKind::Not,
            spec_kw_ws(s@, pos as int, "BETWEEN"@) is None ==> r == Err::<(Expr, usize), (Option<Expr>, ParseError)>(
                (Some(left), ParseError::Backtrack)) && final(pctx).next() == old(pctx).next(),
            tree_is(s@, tl, left) ==> match between_shape(s@, pos as int) {
                Some((lo2, hi2, f)) => old(pctx).next() + tree_size(Tree::Un(UniOpKind::Not, Box::new(Tree::Between(Box::new(tl), Box::new(lo2), Box::new(hi2))))) < u32::MAX
                    + tree_size(tl) ==> (r matches Ok((x, p)) && p == f && tree_is(
                    s@,
                    Tree::Un(UniOpKind::Not, Box::new(Tree::Between(Box::new(tl), Box::new(lo2), Box::new(hi2)))),
                    x,
                ) && final(pctx).next() + tree_size(tl) == old(pctx).next() + tree_size(
                    Tree::Un(UniOpKind::Not, Box::new(Tree::Between(Box::new(tl), Box::new(lo2), Box::new(hi2)))),
                )),
                None => true,
            },
        decreases s@.len() - pos, 4nat,
    {
        let ghost lo = pctx.next();
        let ghost left0 = left;
        proof {
            if tree_is(s@, tl, left) {
                if let Some((lo2, hi2, f)) = between_shape(s@, pos as int) {
                    assert(tree_size(Tree::Between(Box::new(tl), Box::new(lo2), Box::new(hi2))) == 1 + tree_size(tl) + tree_size(lo2) + tree_size(hi2));
                }
            }
        }
        match BetweenParser.parse(self, s, pos, pctx, left) {
            Ok((e, q)) => {
                let ghost e_ids = expr_ids(e);
                let ghost ee = e;
                proof {
                    if tree_is(s@, tl, left0) {
                        if let Some((lo2, hi2, f)) = between_shape(s@, pos as int) {
                            assert(tree_size(Tree::Un(UniOpKind::Not, Box::new(Tree::Between(Box::new(tl), Box::new(lo2), Box::new(hi2))))) == 1 + tree_size(Tree::Between(Box::new(tl), Box::new(lo2), Box::new(hi2))));
                            if lo + tree_size(Tree::Un(UniOpKind::Not, Box::new(Tree::Between(Box::new(tl), Box::new(lo2), Box::new(hi2))))) < u32::MAX + tree_size(tl) {
                                assert(tree_is(s@, Tree::Between(Box::new(tl), Box::new(lo2), Box::new(hi2)), ee));
                            }
                        }
                    }
                }
                let node = match pctx.node(UniOp { kind: UniOpKind::Not, expr: Box::new(e) }) {
                    Ok(node) => node,
                    Err(err) => {
                        return Err((None, err));
                    },
                };
                proof {
                    assert(expr_ids(Expr::UniOp(node)) =~= e_ids.insert(node.id.0 as nat));
                }
                Ok((Expr::UniOp(node), q))
            },
            Err(e) => Err(e),
        }
    }

    /// Parse a primary expression: delegates to [`PrimaryStrategy`].
    fn parse_primary(&self, s: &[char], pos: usize, pctx: &mut ParseContext) -> (r: Result<
        (Expr, usize),
        ParseError,
    >)
        requires
            pos <= s@.len(),
        ensures
            old(pctx).next() <= final(pctx).next(),
            expr_parsed(s@, pos as int, old(pctx).next(), final(pctx).next(), r),
            atom_parsed(s@, pos as int, old(pctx).next(), final(pctx).next(), r),
            constructor_parsed(s@, skip_space(s@, pos as int), old(pctx).next() as nat, final(pctx).next() as nat, r),
            call_parsed(s@, skip_space(s@, pos as int), old(pctx).next() as nat, final(pctx).next() as nat, r),
        decreases s@.len() - pos, 4nat,
    {
        self.primary.parse_primary(self, s, pos, pctx)
    }

    /// Postfix path steps at `pos` (which holds `.` or `[`): `.field` (the
    /// name as a string literal), `.*` (unpivot), `[index]` and `[*]`
    /// (for each), appended to the path that `lhs` already is, if any.
    fn try_postfix(&self, s: &[char], pos: usize, pctx: &mut ParseContext, lhs: Expr) -> (r: Result<
        (Expr, usize),
        ParseError,
    >)
        requires
            pos < s@.len(),
            s@[pos as int] == '.' || s@[pos as int] == '[',
        ensures
            old(pctx).next() <= final(pctx).next(),
            r matches Ok((e, p)) ==> pos < p <= s@.len() && ids_within_or(
                expr_ids(e),
                expr_ids(lhs),
                old(pctx).next(),
                final(pctx).next(),
            ) && e matches Expr::Path(_),
            r matches Ok((Expr::Path(pn), p)) ==> match lhs {
                Expr::Path(l) => *pn.node.root == *l.node.root && l.node.steps@.len()
                    < pn.node.steps@.len() && pn.node.steps@.subrange(0, l.node.steps@.len() as int)
                    == l.node.steps@,
                _ => *pn.node.root == lhs && pn.node.steps@.len() > 0,
            },
            match simple_step(s@, pos as int) {
                Some((e, k)) => !char_at(s@, e, '.') && !char_at(s@, e, '[') && old(pctx).next() + k
                    < u32::MAX ==> (r matches Ok((Expr::Path(_), p)) && p == e),
                None => true,
            },
            match spec_steps(s@, pos as int) {
                Some((sts, e)) => old(pctx).next() + steps_size(sts) + 1 < u32::MAX ==> (r matches Ok(
                    (Expr::Path(pn), p),
                ) && p == e && steps_are(s@, sts, pn.node.steps@, path_len(lhs)) && final(pctx).next() == old(
                    pctx,
                ).next() + steps_size(sts) + 1),
                None => true,
            },
        decreases s@.len() - pos, 3nat,
    {
        let ghost lo = pctx.next();
        let ghost lhs_ids = expr_ids(lhs);
        let ghost lhs0 = lhs;
        let n = s.len();
        let (root, mut steps) = match lhs {
            Expr::Path(path_node) => {
                let root = *path_node.node.root;
                (root, path_node.node.steps)
            },
            other => (other, Vec::new()),
        };
        let ghost steps0 = steps@;
        proof {
            match lhs0 {
                Expr::Path(l) => {
                    assert(root == *l.node.root && steps0 == l.node.steps@);
                },
                _ => {
                    assert(root == lhs0 && steps0.len() == 0);
                },
            }
        }
        let mut p = pos;
        let ghost e: int = match simple_step(s@, pos as int) {
            Some((e, k)) => e,
            None => 0,
        };
        let ghost k: nat = match simple_step(s@, pos as int) {
            Some((e, k)) => k,
            None => 0,
        };
        let ghost simple = simple_step(s@, pos as int) is Some && !char_at(s@, e, '.') && !char_at(
            s@,
            e,
            '[',
        ) && lo + k < u32::MAX;
        let ghost good = spec_steps(s@, pos as int) is Some;
        let ghost all: Seq<StepShape> = rest_shapes(s@, pos as int);
        let ghost fits = good && lo + steps_size(all) + 1 < u32::MAX;
        let ghost mut done: Seq<StepShape> = Seq::empty();
        proof {
            assert(steps_are(s@, done, steps@, steps0.len() as int));
        }
        loop
            invariant
                good == (spec_steps(s@, pos as int) is Some),
                fits ==> spec_steps(s@, p as int) is Some && spec_steps(s@, pos as int)
                    == Some((done + rest_shapes(s@, p as int), rest_end(s@, p as int))) && steps_are(
                    s@,
                    done,
                    steps@,
                    steps0.len() as int,
                ) && (p == pos <==> done.len() == 0) && pctx.next() == lo + steps_size(done),
                fits == (good && lo + steps_size(all) + 1 < u32::MAX),
                all == rest_shapes(s@, pos as int),
                simple == (simple_step(s@, pos as int) == Some((e, k)) && !char_at(s@, e, '.') && !char_at(
                    s@,
                    e,
                    '[',
                ) && lo + k < u32::MAX),
                simple_step(s@, pos as int) is Some ==> simple_step(s@, pos as int) == Some((e, k)),
                simple ==> (p == pos && pctx.next() == lo) || (p == e && e > pos && pctx.next() <= lo + k),
                n == s@.len(),
                pos <= p <= s@.len(),
                steps0.len() <= steps@.len(),
                steps@.subrange(0, steps0.len() as int) == steps0,
                p == pos <==> steps@.len() == steps0.len(),
                lo <= pctx.next(),
                lo == old(pctx).next(),
                forall|i: nat| #[trigger] expr_ids(root).contains(i) ==> lhs_ids.contains(i),
                ids_within_or(step_ids(steps@), lhs_ids, lo, pctx.next()),
                p == pos || p > pos,
            ensures
                lo <= pctx.next(),
                ids_within_or(step_ids(steps@), lhs_ids, lo, pctx.next()),
                pos < p <= s@.len() || p == pos,
                simple ==> p == e && pctx.next() <= lo + k,
                steps0.len() <= steps@.len(),
                steps@.subrange(0, steps0.len() as int) == steps0,
                p == pos <==> steps@.len() == steps0.len(),
                fits ==> spec_steps(s@, pos as int) == Some((done, p as int))
                    && steps_are(s@, done, steps@, steps0.len() as int) && pctx.next() == lo + steps_size(done),
            decreases s@.len() - p,
        {
            if p < n && s[p] == '.' {
                let q = ws0(s, p + 1);
                if q < n && s[q] == '*' {
                    let ghost before = steps@;
                    steps.push(PathStep::PathUnpivot);
                    proof {
                        assert(steps@.drop_last() =~= before);
                        assert(step_ids(steps@) =~= step_ids(before));
                    }
                    let ghost p_old = p;
                    p = ws0(s, q + 1);
                    proof {
                        if fits {
                            assert(spec_steps(s@, p_old as int) == steps_then(s@, p_old as int, StepShape::Unpivot, p as int));
                            lemma_steps_push(s@, pos as int, p_old as int, p as int, done, StepShape::Unpivot, steps@, steps0.len() as int);
                        }
                        lemma_steps_size_push(done, StepShape::Unpivot);
                        done = done.push(StepShape::Unpivot);
                    }
                } else {
                    proof {
                        if simple {
                            assert(p == pos);
                            assert(spec_identifier(s@, q as int) is Some);
                            assert(pctx.next() == lo);
                        }
                    }
                    let (field, q2) = identifier(s, q)?;
                    proof {
                        if fits {
                            crate::text::lemma_skip_space(s@, q2 as int);
                            assert(spec_identifier(s@, q as int) == Some((field@, q2 as int)));
                            assert(spec_steps(s@, p as int) == steps_then(
                                s@,
                                p as int,
                                StepShape::Field(field@),
                                skip_space(s@, q2 as int),
                            ));
                            lemma_steps_size_first(rest_shapes(s@, p as int));
                            lemma_steps_size_concat(done, rest_shapes(s@, p as int));
                        }
                    }
                    let lit = pctx.node(Lit::CharStringLit(field))?;
                    let index = Expr::Lit(lit);
                    let ghost before = steps@;
                    let ghost new_ids = expr_ids(index);
                    proof {
                        assert(new_ids =~= set![lit.id.0 as nat]);
                    }
                    steps.push(PathStep::PathProject(PathExpr { index: Box::new(index) }));
                    proof {
                        assert(steps@.drop_last() =~= before);
                        assert(step_ids(steps@) =~= step_ids(before).union(new_ids));
                    }
                    let ghost p_old = p;
                    p = ws0(s, q2);
                    proof {
                        let st = StepShape::Field(field@);
                        if fits {
                            assert(spec_identifier(s@, q as int) == Some((field@, q2 as int)));
                            assert(spec_steps(s@, p_old as int) == steps_then(s@, p_old as int, st, p as int));
                            lemma_steps_push(s@, pos as int, p_old as int, p as int, done, st, steps@, steps0.len() as int);
                        }
                        lemma_steps_size_push(done, st);
                        done = done.push(st);
                    }
                }
            } else if p < n && s[p] == '[' {
                let q = ws0(s, p + 1);
                let star_end = if q < n && s[q] == '*' {
                    ch(s, ws0(s, q + 1), ']')
                } else {
                    None
                };
                if let Some(q4) = star_end {
                    let ghost before = steps@;
                    steps.push(PathStep::PathForEach);
                    proof {
                        assert(steps@.drop_last() =~= before);
                        assert(step_ids(steps@) =~= step_ids(before));
                    }
                    let ghost p_old = p;
                    p = ws0(s, q4);
                    proof {
                        if fits {
                            assert(spec_steps(s@, p_old as int) == steps_then(s@, p_old as int, StepShape::ForEach, p as int));
                            lemma_steps_push(s@, pos as int, p_old as int, p as int, done, StepShape::ForEach, steps@, steps0.len() as int);
                        }
                        lemma_steps_size_push(done, StepShape::ForEach);
                        done = done.push(StepShape::ForEach);
                    }
                } else {
                    let ghost it = match spec_bp(s@, q as int, 0) {
                        Some((t, e)) => t,
                        None => Tree::Atom(0),
                    };
                    let ghost ie = match spec_bp(s@, q as int, 0) {
                        Some((t, e)) => e,
                        None => 0,
                    };
                    proof {
                        if fits {
                            assert(spec_steps(s@, p as int) == steps_then(
                                s@,
                                p as int,
                                StepShape::Index(it),
                                skip_space(s@, ie + 1),
                            ));
                            lemma_steps_size_first(rest_shapes(s@, p as int));
                            lemma_steps_size_concat(done, rest_shapes(s@, p as int));
                        }
                    }
                    let (idx, q2) = self.parse_bp(s, q, pctx, 0)?;
                    let q3 = ws0(s, q2);
                    let q4 = match ch(s, q3, ']') {
                        Some(q4) => q4,
                        None => {
                            return Err(ParseError::Backtrack);
                        },
                    };
                    let ghost before = steps@;
                    let ghost new_ids = expr_ids(idx);
                    steps.push(PathStep::PathIndex(PathExpr { index: Box::new(idx) }));
                    proof {
                        assert(steps@.drop_last() =~= before);
                        assert(step_ids(steps@) =~= step_ids(before).union(new_ids));
                    }
                    let ghost p_old = p;
                    p = ws0(s, q4);
                    proof {
                        let st = StepShape::Index(it);
                        if fits {
                            assert(spec_steps(s@, p_old as int) == steps_then(s@, p_old as int, st, p as int));
                            lemma_steps_push(s@, pos as int, p_old as int, p as int, done, st, steps@, steps0.len() as int);
                        }
                        lemma_steps_size_push(done, st);
                        done = done.push(st);
                    }
                }
            } else {
                break ;
            }
        }
        if p == pos {
            return Err(ParseError::Backtrack);
        }
        let node = pctx.node(Path { root: Box::new(root), steps })?;
        Ok((Expr::Path(node), p))
    }

    /// A strategy context over this parser.
    pub fn make_ctx(&self) -> (r: StrategyContext<'_>)
        ensures
            r.pratt == self,
    {
        StrategyContext::new(self)
    }
}

} // verus!
