//! Aggregate pushdown for `COUNT`.
//!
//! Storage engines implement [`CollCount`] to return a row count without
//! materialising all rows into a bag. The evaluator asks for this
//! capability before falling back to iteration.
use vstd::prelude::*;

verus! {

/// Optimised `COUNT` pushdown.
///
/// Storage engines implement this on their evaluation context to provide
/// constant-time row counts. The evaluator calls it before iterating the
/// collection.
pub trait CollCount {
    /// The number of rows in the current collection.
    fn coll_count(&self) -> usize;
}

} // verus!
