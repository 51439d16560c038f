//! Ion-compatible literal values: strings, numbers, timestamps, nulls,
//! blobs, annotations, and the constructors built from them.
//!
//! | Ion type | Syntax | SQL extension |
//! |----------|--------|---------------|
//! | null | `null`, `null.int`, `null.string` | `MISSING` |
//! | bool | `true`, `false` | |
//! | int | `42`, `0xFACE`, `0b1010`, `1_000` | |
//! | decimal | `3.14`, `1.0d2` | |
//! | float | `1.0e0`, `nan`, `+inf`, `-inf` | |
//! | timestamp | `2024-01-15T12:30:00Z` (bare, not quoted) | |
//! | string | `"hello"` (Ion double-quoted) | `'hello'` (SQL single-quoted) |
//! | blob | `{{ SGVsbG8= }}` | |
//! | list | `[1, 2, 3]` | |
//! | struct | `{ field: value }` | |
//! | bag | `<< 1, 2, 3 >>` | PartiQL extension |
//! | annotation | `name::value`, `a::b::42` | |
//!
//! Each literal strategy parses one form at a position and returns the
//! expression node with the position after it, or
//! [`ParseError::Backtrack`](crate::parse_context::ParseError::Backtrack)
//! when the form does not stand there.
pub mod bag_strategy;
pub mod boolean_strategy;
pub mod case_strategy;
pub mod ion;
pub mod ion_null;
pub mod list_strategy;
pub mod null_strategy;
pub mod number_strategy;
pub mod string_strategy;
pub mod struct_strategy;

use crate::ast::{Expr, Lit};
use crate::expr::{expr_parsed, StrategyContext};
use crate::parse_context::{ParseContext, ParseError};
use vstd::prelude::*;

verus! {

/// The outcome of a literal strategy that recognises a form ending at
/// `end` (none when the form is absent): a single `Lit` node with id
/// `next` that satisfies `ok`, or `NodeIdsExhausted` when no id is left.
pub open spec fn lit_outcome(
    r: Result<(Expr, usize), ParseError>,
    next: nat,
    end: Option<int>,
    ok: spec_fn(Lit) -> bool,
) -> bool {
    match end {
        None => r == Err::<(Expr, usize), ParseError>(ParseError::Backtrack),
        Some(q) => if next < u32::MAX {
            r matches Ok((Expr::Lit(n), p)) && p == q && n.id.0 == next && ok(n.node)
        } else {
            r == Err::<(Expr, usize), ParseError>(ParseError::NodeIdsExhausted)
        },
    }
}

/// A literal or constructor form: parses its form at `pos`.
pub trait LiteralStrategy {
    fn parse(&self, ctx: &StrategyContext, s: &[char], pos: usize, pctx: &mut ParseContext) -> (r: Result<
        (Expr, usize),
        ParseError,
    >)
        requires
            pos <= s@.len(),
        ensures
            old(pctx).next() <= final(pctx).next(),
            expr_parsed(s@, pos as int, old(pctx).next(), final(pctx).next(), r),
    ;
}

/// The text of a scanner outcome, empty when there is none.
pub open spec fn text_of(r: Option<(Seq<char>, int)>) -> Seq<char> {
    match r {
        Some((t, q)) => t,
        None => Seq::empty(),
    }
}

} // verus!
