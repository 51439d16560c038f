//! Queries: `SELECT` with its clauses, and the `FROM` sources and joins.
//!
//! ```text
//! select ::= SELECT projection
//!            [FROM from_clause] [WHERE expr]
//!            [GROUP BY group_keys] [HAVING expr]
//!            [ORDER BY sort_specs] [LIMIT expr] [OFFSET expr]
//! ```
//! An alias follows an expression either after `AS` or on its own; a
//! bare alias is never one of the reserved words below, so that
//! `FROM t WHERE ...` does not read `WHERE` as the alias of `t`.
pub mod from_clause;
pub mod group_by_clause;
pub mod having_clause;
pub mod join;
pub mod limit_offset_clause;
pub mod order_by_clause;
pub mod projection_clause;
pub mod select_parser;
pub mod where_clause;

use crate::identifier::{identifier, lemma_identifier_advances, spec_identifier};
use crate::text::{kw, kw_at, kw_ws, spec_kw_ws};
use vstd::prelude::*;

verus! {

/// A word that ends an expression in a query and so is never a bare alias.
pub open spec fn reserved_at(s: Seq<char>, p: int) -> bool {
    ||| kw_at(s, p, "SELECT"@)
    ||| kw_at(s, p, "FROM"@)
    ||| kw_at(s, p, "WHERE"@)
    ||| kw_at(s, p, "GROUP"@)
    ||| kw_at(s, p, "HAVING"@)
    ||| kw_at(s, p, "ORDER"@)
    ||| kw_at(s, p, "LIMIT"@)
    ||| kw_at(s, p, "OFFSET"@)
    ||| kw_at(s, p, "JOIN"@)
    ||| kw_at(s, p, "INNER"@)
    ||| kw_at(s, p, "LEFT"@)
    ||| kw_at(s, p, "RIGHT"@)
    ||| kw_at(s, p, "FULL"@)
    ||| kw_at(s, p, "OUTER"@)
    ||| kw_at(s, p, "CROSS"@)
    ||| kw_at(s, p, "ON"@)
    ||| kw_at(s, p, "AS"@)
    ||| kw_at(s, p, "AT"@)
    ||| kw_at(s, p, "BY"@)
    ||| kw_at(s, p, "SET"@)
    ||| kw_at(s, p, "ASC"@)
    ||| kw_at(s, p, "DESC"@)
    ||| kw_at(s, p, "UNION"@)
    ||| kw_at(s, p, "INTERSECT"@)
    ||| kw_at(s, p, "EXCEPT"@)
}

/// Whether a reserved word stands at `p`.
pub fn is_reserved_at(s: &[char], p: usize) -> (r: bool)
    requires
        p <= s@.len(),
    ensures
        r == reserved_at(s@, p as int),
{
    kw(s, p, "SELECT").is_some() || kw(s, p, "FROM").is_some() || kw(s, p, "WHERE").is_some()
        || kw(s, p, "GROUP").is_some() || kw(s, p, "HAVING").is_some() || kw(s, p, "ORDER").is_some()
        || kw(s, p, "LIMIT").is_some() || kw(s, p, "OFFSET").is_some() || kw(s, p, "JOIN").is_some()
        || kw(s, p, "INNER").is_some() || kw(s, p, "LEFT").is_some() || kw(s, p, "RIGHT").is_some()
        || kw(s, p, "FULL").is_some() || kw(s, p, "OUTER").is_some() || kw(s, p, "CROSS").is_some()
        || kw(s, p, "ON").is_some() || kw(s, p, "AS").is_some() || kw(s, p, "AT").is_some()
        || kw(s, p, "BY").is_some() || kw(s, p, "SET").is_some() || kw(s, p, "ASC").is_some()
        || kw(s, p, "DESC").is_some() || kw(s, p, "UNION").is_some() || kw(s, p, "INTERSECT").is_some()
        || kw(s, p, "EXCEPT").is_some()
}

/// The alias at `p`: `AS name`, or a bare name that is not reserved.
pub open spec fn spec_alias(s: Seq<char>, p: int) -> Option<(Seq<char>, int)> {
    match spec_kw_ws(s, p, "AS"@) {
        Some(q) => spec_identifier(s, q),
        None => if reserved_at(s, p) {
            None
        } else {
            spec_identifier(s, p)
        },
    }
}

/// Parse an alias at `p`: its name and end.
pub fn alias(s: &[char], p: usize) -> (r: Option<(String, usize)>)
    requires
        p <= s@.len(),
    ensures
        match r {
            Some((v, e)) => spec_alias(s@, p as int) == Some((v@, e as int)) && p < e <= s@.len(),
            None => spec_alias(s@, p as int) is None,
        },
{
    match kw_ws(s, p, "AS") {
        Some(q) => {
            proof {
                lemma_identifier_advances(s@, q as int);
            }
            match identifier(s, q) {
                Ok((v, e)) => Some((v, e)),
                Err(_) => None,
            }
        },
        None => {
            if is_reserved_at(s, p) {
                return None;
            }
            match identifier(s, p) {
                Ok((v, e)) => Some((v, e)),
                Err(_) => None,
            }
        },
    }
}

} // verus!
