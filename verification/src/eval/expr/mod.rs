//! Date-time functions of the evaluator.
//!
//! Each function has a binder that checks the number of arguments and
//! builds the bound expression, and an `evaluate` that computes the
//! result from the values of the arguments (and, for the clock
//! functions, from the evaluation's current time).
pub mod datetime_functions;
pub mod to_string;

use vstd::prelude::*;

verus! {

/// Why a function could not be bound to its arguments.
#[derive(Debug)]
pub enum BindError {
    /// The function takes one of the `expected` numbers of arguments, but
    /// `found` were given.
    ArgNumMismatch { expected: Vec<usize>, found: usize },
}

/// `r` is the arity error for `expected` argument counts and `found`
/// arguments.
pub open spec fn is_arity_error(r: BindError, expected: Seq<usize>, found: nat) -> bool {
    r matches BindError::ArgNumMismatch { expected: e, found: f } && e@ == expected && f == found
}

/// The arity error for one accepted argument count.
pub fn arity_error(expected: usize, found: usize) -> (r: BindError)
    ensures
        is_arity_error(r, seq![expected], found as nat),
{
    let mut counts = Vec::new();
    counts.push(expected);
    proof {
        assert(counts@ =~= seq![expected]);
    }
    BindError::ArgNumMismatch { expected: counts, found }
}

/// The arity error for two accepted argument counts.
pub fn arity_error2(first: usize, second: usize, found: usize) -> (r: BindError)
    ensures
        is_arity_error(r, seq![first, second], found as nat),
{
    let mut counts = Vec::new();
    counts.push(first);
    counts.push(second);
    proof {
        assert(counts@ =~= seq![first, second]);
    }
    BindError::ArgNumMismatch { expected: counts, found }
}

} // verus!
