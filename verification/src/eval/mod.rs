//! Evaluation helpers: the date-time functions, `TO_STRING`, and the
//! row-count capability that storage engines can offer.
pub mod coll_count;
pub mod expr;
