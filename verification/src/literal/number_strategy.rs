//! Numeric literals: integers, decimals and floats.
use crate::ast::{Expr, FloatLiteral, Lit};
use crate::expr::expr_parsed;
use crate::literal::ion::number::{
    decimal_of_text, ion_number, spec_ion_number, IonNumber, NumberShape,
};
use crate::literal::lit_outcome;
use crate::parse_context::{ParseContext, ParseError};
use crate::expr::StrategyContext;
use crate::literal::LiteralStrategy;
use vstd::prelude::*;

verus! {

/// `l` is the literal for the number of shape `shape`.
pub open spec fn lit_matches_number(l: Lit, shape: NumberShape) -> bool {
    match (l, shape) {
        (Lit::Int64Lit(v), NumberShape::Integer(w)) => v == w,
        (Lit::DecimalLit(d), NumberShape::Decimal(t)) => decimal_of_text(t) == Some(d),
        (Lit::DoubleLit(FloatLiteral::Finite(f)), NumberShape::Float(t)) => f@ == t,
        (Lit::DoubleLit(FloatLiteral::Nan), NumberShape::Nan) => true,
        (Lit::DoubleLit(FloatLiteral::PosInfinity), NumberShape::PosInf) => true,
        (Lit::DoubleLit(FloatLiteral::NegInfinity), NumberShape::NegInf) => true,
        _ => false,
    }
}

/// `l` is the literal of the number that `spec` found, if any.
pub open spec fn number_lit_ok(l: Lit, spec: Option<(NumberShape, int)>) -> bool {
    match spec {
        Some((shape, q)) => lit_matches_number(l, shape),
        None => false,
    }
}

/// End of the number at `pos`.
pub open spec fn number_end(s: Seq<char>, pos: int) -> Option<int> {
    match spec_ion_number(s, pos) {
        Some((shape, q)) => Some(q),
        None => None,
    }
}

/// Strategy for numeric literals.
pub struct NumericLiteralStrategy;

impl NumericLiteralStrategy {
    /// Parse a number at `pos`: integer to `Int64Lit`, decimal to
    /// `DecimalLit`, float to `DoubleLit`.
    pub fn parse(&self, s: &[char], pos: usize, pctx: &mut ParseContext) -> (r: Result<
        (Expr, usize),
        ParseError,
    >)
        requires
            pos <= s@.len(),
        ensures
            old(pctx).next() <= final(pctx).next(),
            expr_parsed(s@, pos as int, old(pctx).next(), final(pctx).next(), r),
            r is Ok ==> final(pctx).next() == old(pctx).next() + 1,
            lit_outcome(
                r,
                old(pctx).next(),
                number_end(s@, pos as int),
                |l: Lit| number_lit_ok(l, spec_ion_number(s@, pos as int)),
            ),
    {
        let (num, p) = ion_number(s, pos)?;
        let lit = match num {
            IonNumber::Integer(n) => Lit::Int64Lit(n),
            IonNumber::Decimal(d) => Lit::DecimalLit(d),
            IonNumber::Float(f) => Lit::DoubleLit(f),
        };
        let node = pctx.node(lit)?;
        Ok((Expr::Lit(node), p))
    }
}

impl LiteralStrategy for NumericLiteralStrategy {
    fn parse(&self, ctx: &StrategyContext, s: &[char], pos: usize, pctx: &mut ParseContext) -> (r: Result<
        (Expr, usize),
        ParseError,
    >) {
        NumericLiteralStrategy::parse(self, s, pos, pctx)
    }
}

} // verus!
