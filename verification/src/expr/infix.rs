//! Infix operators of the Pratt parser: recognition and binding powers.
//!
//! | operators                          | left bp | right bp |
//! |------------------------------------|---------|----------|
//! | `OR`                               | 1       | 2        |
//! | `AND`                              | 3       | 4        |
//! | `= != <> < <= > >=` `IS IN LIKE BETWEEN NOT` | 5 | 6   |
//! | `+ - ||`                           | 7       | 8        |
//! | `* / %`                            | 9       | 10       |
use crate::ast::BinOpKind;
use crate::text::{kw, kw_at};
use vstd::prelude::*;

verus! {

/// Infix operator classification.
#[derive(Debug, Clone, Copy, PartialEq, Eq)]
pub enum InfixOp {
    BinOp(BinOpKind),
    Is,
    In,
    Like,
    Between,
    /// `NOT IN`, `NOT LIKE`, `NOT BETWEEN`
    Not,
}

/// Prefix binding power for unary `-` and `+`.
pub const PREFIX_BP: u8 = 11;

/// Prefix binding power for `NOT`: above `AND` and below comparison, so
/// `NOT` takes one comparison (`not_expr ::= [NOT] comparison`), and
/// `NOT a = 1 AND b = 2` is `(NOT a = 1) AND b = 2`.
pub const NOT_PREFIX_BP: u8 = 4;

pub open spec fn next_is(s: Seq<char>, p: int, c: char) -> bool {
    0 <= p + 1 < s.len() && s[p + 1] == c
}

/// The infix operator at `p`, with its left and right binding powers.
pub open spec fn spec_peek_infix(s: Seq<char>, p: int) -> Option<(InfixOp, u8, u8)> {
    if p < 0 || p >= s.len() {
        None
    } else {
        let c = s[p];
        if c == '=' {
            Some((InfixOp::BinOp(BinOpKind::Eq), 5, 6))
        } else if c == '!' {
            if next_is(s, p, '=') {
                Some((InfixOp::BinOp(BinOpKind::Ne), 5, 6))
            } else {
                None
            }
        } else if c == '<' {
            if next_is(s, p, '=') {
                Some((InfixOp::BinOp(BinOpKind::Lte), 5, 6))
            } else if next_is(s, p, '>') {
                Some((InfixOp::BinOp(BinOpKind::Ne), 5, 6))
            } else if next_is(s, p, '<') {
                None
            } else {
                Some((InfixOp::BinOp(BinOpKind::Lt), 5, 6))
            }
        } else if c == '>' {
            if next_is(s, p, '=') {
                Some((InfixOp::BinOp(BinOpKind::Gte), 5, 6))
            } else if next_is(s, p, '>') {
                None
            } else {
                Some((InfixOp::BinOp(BinOpKind::Gt), 5, 6))
            }
        } else if c == '+' {
            Some((InfixOp::BinOp(BinOpKind::Add), 7, 8))
        } else if c == '-' {
            Some((InfixOp::BinOp(BinOpKind::Sub), 7, 8))
        } else if c == '*' {
            Some((InfixOp::BinOp(BinOpKind::Mul), 9, 10))
        } else if c == '/' {
            Some((InfixOp::BinOp(BinOpKind::Div), 9, 10))
        } else if c == '%' {
            Some((InfixOp::BinOp(BinOpKind::Mod), 9, 10))
        } else if c == '|' {
            if next_is(s, p, '|') {
                Some((InfixOp::BinOp(BinOpKind::Concat), 7, 8))
            } else {
                None
            }
        } else if c == 'A' || c == 'a' {
            if kw_at(s, p, "AND"@) {
                Some((InfixOp::BinOp(BinOpKind::And), 3, 4))
            } else {
                None
            }
        } else if c == 'O' || c == 'o' {
            if kw_at(s, p, "OR"@) {
                Some((InfixOp::BinOp(BinOpKind::Or), 1, 2))
            } else {
                None
            }
        } else if c == 'I' || c == 'i' {
            if kw_at(s, p, "IS"@) {
                Some((InfixOp::Is, 5, 6))
            } else if kw_at(s, p, "IN"@) {
                Some((InfixOp::In, 5, 6))
            } else {
                None
            }
        } else if c == 'L' || c == 'l' {
            if kw_at(s, p, "LIKE"@) {
                Some((InfixOp::Like, 5, 6))
            } else {
                None
            }
        } else if c == 'B' || c == 'b' {
            if kw_at(s, p, "BETWEEN"@) {
                Some((InfixOp::Between, 5, 6))
            } else {
                None
            }
        } else if c == 'N' || c == 'n' {
            if kw_at(s, p, "NOT"@) {
                Some((InfixOp::Not, 5, 6))
            } else {
                None
            }
        } else {
            None
        }
    }
}

/// The operator table: each operator sign stands for its operator, and
/// each operator has the binding powers of its level, the same wherever
/// it stands. `OR` 1/2, `AND` 3/4, comparisons and the special forms
/// 5/6, `+ - ||` 7/8, `* / %` 9/10: a higher level binds tighter, and
/// the right power one above the left makes each level associate to the
/// left.
pub proof fn law_operator_table(s: Seq<char>, p: int)
    requires
        0 <= p < s.len(),
    ensures
        s[p] == '+' ==> spec_peek_infix(s, p) == Some((InfixOp::BinOp(BinOpKind::Add), 7u8, 8u8)),
        s[p] == '-' ==> spec_peek_infix(s, p) == Some((InfixOp::BinOp(BinOpKind::Sub), 7u8, 8u8)),
        s[p] == '*' ==> spec_peek_infix(s, p) == Some((InfixOp::BinOp(BinOpKind::Mul), 9u8, 10u8)),
        s[p] == '/' ==> spec_peek_infix(s, p) == Some((InfixOp::BinOp(BinOpKind::Div), 9u8, 10u8)),
        s[p] == '%' ==> spec_peek_infix(s, p) == Some((InfixOp::BinOp(BinOpKind::Mod), 9u8, 10u8)),
        s[p] == '=' ==> spec_peek_infix(s, p) == Some((InfixOp::BinOp(BinOpKind::Eq), 5u8, 6u8)),
        s[p] == '!' && next_is(s, p, '=') ==> spec_peek_infix(s, p) == Some((InfixOp::BinOp(BinOpKind::Ne), 5u8, 6u8)),
        s[p] == '<' && next_is(s, p, '=') ==> spec_peek_infix(s, p) == Some((InfixOp::BinOp(BinOpKind::Lte), 5u8, 6u8)),
        s[p] == '<' && next_is(s, p, '>') ==> spec_peek_infix(s, p) == Some((InfixOp::BinOp(BinOpKind::Ne), 5u8, 6u8)),
        s[p] == '<' && !next_is(s, p, '=') && !next_is(s, p, '>') && !next_is(s, p, '<') ==> spec_peek_infix(s, p)
            == Some((InfixOp::BinOp(BinOpKind::Lt), 5u8, 6u8)),
        s[p] == '>' && next_is(s, p, '=') ==> spec_peek_infix(s, p) == Some((InfixOp::BinOp(BinOpKind::Gte), 5u8, 6u8)),
        s[p] == '>' && !next_is(s, p, '=') && !next_is(s, p, '>') ==> spec_peek_infix(s, p) == Some(
            (InfixOp::BinOp(BinOpKind::Gt), 5u8, 6u8),
        ),
        s[p] == '|' && next_is(s, p, '|') ==> spec_peek_infix(s, p) == Some(
            (InfixOp::BinOp(BinOpKind::Concat), 7u8, 8u8),
        ),
        (s[p] == 'A' || s[p] == 'a') && kw_at(s, p, "AND"@) ==> spec_peek_infix(s, p) == Some(
            (InfixOp::BinOp(BinOpKind::And), 3u8, 4u8),
        ),
        (s[p] == 'O' || s[p] == 'o') && kw_at(s, p, "OR"@) ==> spec_peek_infix(s, p) == Some(
            (InfixOp::BinOp(BinOpKind::Or), 1u8, 2u8),
        ),
        match spec_peek_infix(s, p) {
            Some((InfixOp::BinOp(k), l, r)) => match k {
                BinOpKind::Or => l == 1 && r == 2,
                BinOpKind::And => l == 3 && r == 4,
                BinOpKind::Add | BinOpKind::Sub | BinOpKind::Concat => l == 7 && r == 8,
                BinOpKind::Mul | BinOpKind::Div | BinOpKind::Mod => l == 9 && r == 10,
                _ => l == 5 && r == 6,
            },
            Some((_, l, r)) => l == 5 && r == 6,
            None => true,
        },
{
}

/// The prefix operators' operands: no binary operator binds tighter than
/// unary `-` and `+`, so their operand is one primary; `NOT` takes the
/// comparisons and the operators above them into its operand, but not
/// `AND` or `OR`.
pub proof fn law_prefix_powers(s: Seq<char>, p: int)
    ensures
        spec_peek_infix(s, p) matches Some((op, l, r)) ==> l < PREFIX_BP && (l >= NOT_PREFIX_BP <==> l >= 5),
{
    if 0 <= p < s.len() {
        law_operator_table(s, p);
    }
}

/// How many chars `consume_infix` takes for an operator: the operator's
/// own text for binary operators and `NOT`; nothing for `IS`, `IN`, `LIKE`
/// and `BETWEEN`, whose parsers read their keyword themselves.
pub open spec fn infix_width(op: InfixOp) -> nat {
    match op {
        InfixOp::BinOp(k) => match k {
            BinOpKind::Ne | BinOpKind::Lte | BinOpKind::Gte | BinOpKind::Concat | BinOpKind::Or => 2,
            BinOpKind::And => 3,
            _ => 1,
        },
        InfixOp::Not => 3,
        _ => 0,
    }
}

/// Peek at the infix operator at `p` without consuming it.
pub fn peek_infix(s: &[char], p: usize) -> (r: Option<(InfixOp, u8, u8)>)
    requires
        p <= s@.len(),
    ensures
        r == spec_peek_infix(s@, p as int),
        r matches Some((op, l, rb)) ==> p + infix_width(op) <= s@.len(),
{
    proof {
        reveal_strlit("AND");
        reveal_strlit("OR");
        reveal_strlit("NOT");
    }
    let n = s.len();
    if p >= n {
        return None;
    }
    let c = s[p];
    let next = if p + 1 < n {
        Some(s[p + 1])
    } else {
        None
    };
    if c == '=' {
        Some((InfixOp::BinOp(BinOpKind::Eq), 5, 6))
    } else if c == '!' {
        if next == Some('=') {
            Some((InfixOp::BinOp(BinOpKind::Ne), 5, 6))
        } else {
            None
        }
    } else if c == '<' {
        if next == Some('=') {
            Some((InfixOp::BinOp(BinOpKind::Lte), 5, 6))
        } else if next == Some('>') {
            Some((InfixOp::BinOp(BinOpKind::Ne), 5, 6))
        } else if next == Some('<') {
            None
        } else {
            Some((InfixOp::BinOp(BinOpKind::Lt), 5, 6))
        }
    } else if c == '>' {
        if next == Some('=') {
            Some((InfixOp::BinOp(BinOpKind::Gte), 5, 6))
        } else if next == Some('>') {
            None
        } else {
            Some((InfixOp::BinOp(BinOpKind::Gt), 5, 6))
        }
    } else if c == '+' {
        Some((InfixOp::BinOp(BinOpKind::Add), 7, 8))
    } else if c == '-' {
        Some((InfixOp::BinOp(BinOpKind::Sub), 7, 8))
    } else if c == '*' {
        Some((InfixOp::BinOp(BinOpKind::Mul), 9, 10))
    } else if c == '/' {
        Some((InfixOp::BinOp(BinOpKind::Div), 9, 10))
    } else if c == '%' {
        Some((InfixOp::BinOp(BinOpKind::Mod), 9, 10))
    } else if c == '|' {
        if next == Some('|') {
            Some((InfixOp::BinOp(BinOpKind::Concat), 7, 8))
        } else {
            None
        }
    } else if c == 'A' || c == 'a' {
        if kw(s, p, "AND").is_some() {
            Some((InfixOp::BinOp(BinOpKind::And), 3, 4))
        } else {
            None
        }
    } else if c == 'O' || c == 'o' {
        if kw(s, p, "OR").is_some() {
            Some((InfixOp::BinOp(BinOpKind::Or), 1, 2))
        } else {
            None
        }
    } else if c == 'I' || c == 'i' {
        if kw(s, p, "IS").is_some() {
            Some((InfixOp::Is, 5, 6))
        } else if kw(s, p, "IN").is_some() {
            Some((InfixOp::In, 5, 6))
        } else {
            None
        }
    } else if c == 'L' || c == 'l' {
        if kw(s, p, "LIKE").is_some() {
            Some((InfixOp::Like, 5, 6))
        } else {
            None
        }
    } else if c == 'B' || c == 'b' {
        if kw(s, p, "BETWEEN").is_some() {
            Some((InfixOp::Between, 5, 6))
        } else {
            None
        }
    } else if c == 'N' || c == 'n' {
        if kw(s, p, "NOT").is_some() {
            Some((InfixOp::Not, 5, 6))
        } else {
            None
        }
    } else {
        None
    }
}

/// Consume the operator's token (see [`infix_width`]).
pub fn consume_infix(s: &[char], p: usize, op: InfixOp) -> (r: usize)
    requires
        p + infix_width(op) <= s@.len(),
    ensures
        r == p + infix_width(op),
{
    let _len = s.len();
    match op {
        InfixOp::BinOp(kind) => match kind {
            BinOpKind::Ne | BinOpKind::Lte | BinOpKind::Gte | BinOpKind::Concat | BinOpKind::Or => p
                + 2,
            BinOpKind::And => p + 3,
            _ => p + 1,
        },
        InfixOp::Not => p + 3,
        _ => p,
    }
}

} // verus!
