//! Ion nulls, generic and typed, and PartiQL `MISSING`.
//!
//! ```text
//! null_value  ::= 'null' ('.' type_name)?
//! type_name   ::= 'null' | 'bool' | 'int' | 'float' | 'decimal'
//!               | 'timestamp' | 'string' | 'symbol' | 'blob' | 'clob'
//!               | 'list' | 'sexp' | 'struct'
//! ```
//! All words are matched without regard to ASCII case, as whole words.
use crate::parse_context::ParseError;
use crate::text::{ch, kw, kw_at};
use vstd::prelude::*;

verus! {

/// Ion typed null category.
#[derive(Debug, Clone, Copy, PartialEq, Eq)]
pub enum TypedNull {
    Null,
    Bool,
    Int,
    Float,
    Decimal,
    Timestamp,
    String,
    Symbol,
    Blob,
    Clob,
    List,
    Sexp,
    Struct,
}

/// Ion null value: generic or typed.
#[derive(Debug, Clone, Copy, PartialEq, Eq)]
pub enum IonNull {
    /// Generic null: `null`
    Generic,
    /// Typed null: `null.int`, `null.string`, etc.
    Typed(TypedNull),
}

/// The type name at `p`, tried in the order of the grammar.
pub open spec fn spec_type_name(s: Seq<char>, p: int) -> Option<(TypedNull, int)> {
    if kw_at(s, p, "null"@) {
        Some((TypedNull::Null, p + "null"@.len()))
    } else if kw_at(s, p, "bool"@) {
        Some((TypedNull::Bool, p + "bool"@.len()))
    } else if kw_at(s, p, "int"@) {
        Some((TypedNull::Int, p + "int"@.len()))
    } else if kw_at(s, p, "float"@) {
        Some((TypedNull::Float, p + "float"@.len()))
    } else if kw_at(s, p, "decimal"@) {
        Some((TypedNull::Decimal, p + "decimal"@.len()))
    } else if kw_at(s, p, "timestamp"@) {
        Some((TypedNull::Timestamp, p + "timestamp"@.len()))
    } else if kw_at(s, p, "string"@) {
        Some((TypedNull::String, p + "string"@.len()))
    } else if kw_at(s, p, "symbol"@) {
        Some((TypedNull::Symbol, p + "symbol"@.len()))
    } else if kw_at(s, p, "blob"@) {
        Some((TypedNull::Blob, p + "blob"@.len()))
    } else if kw_at(s, p, "clob"@) {
        Some((TypedNull::Clob, p + "clob"@.len()))
    } else if kw_at(s, p, "list"@) {
        Some((TypedNull::List, p + "list"@.len()))
    } else if kw_at(s, p, "sexp"@) {
        Some((TypedNull::Sexp, p + "sexp"@.len()))
    } else if kw_at(s, p, "struct"@) {
        Some((TypedNull::Struct, p + "struct"@.len()))
    } else {
        None
    }
}

/// The Ion null at `pos`.
pub open spec fn spec_ion_null(s: Seq<char>, pos: int) -> Option<(IonNull, int)> {
    if kw_at(s, pos, "null"@) {
        let p = pos + "null"@.len();
        if 0 <= p < s.len() && s[p] == '.' {
            match spec_type_name(s, p + 1) {
                Some((t, e)) => Some((IonNull::Typed(t), e)),
                None => None,
            }
        } else {
            Some((IonNull::Generic, p))
        }
    } else {
        None
    }
}

fn null_type(s: &[char], p: usize) -> (r: Option<(TypedNull, usize)>)
    requires
        p <= s@.len(),
    ensures
        (match r {
            Some((t, e)) => Some((t, e as int)),
            None => None,
        }) == spec_type_name(s@, p as int),
{
    if let Some(e) = kw(s, p, "null") {
        return Some((TypedNull::Null, e));
    }
    if let Some(e) = kw(s, p, "bool") {
        return Some((TypedNull::Bool, e));
    }
    if let Some(e) = kw(s, p, "int") {
        return Some((TypedNull::Int, e));
    }
    if let Some(e) = kw(s, p, "float") {
        return Some((TypedNull::Float, e));
    }
    if let Some(e) = kw(s, p, "decimal") {
        return Some((TypedNull::Decimal, e));
    }
    if let Some(e) = kw(s, p, "timestamp") {
        return Some((TypedNull::Timestamp, e));
    }
    if let Some(e) = kw(s, p, "string") {
        return Some((TypedNull::String, e));
    }
    if let Some(e) = kw(s, p, "symbol") {
        return Some((TypedNull::Symbol, e));
    }
    if let Some(e) = kw(s, p, "blob") {
        return Some((TypedNull::Blob, e));
    }
    if let Some(e) = kw(s, p, "clob") {
        return Some((TypedNull::Clob, e));
    }
    if let Some(e) = kw(s, p, "list") {
        return Some((TypedNull::List, e));
    }
    if let Some(e) = kw(s, p, "sexp") {
        return Some((TypedNull::Sexp, e));
    }
    if let Some(e) = kw(s, p, "struct") {
        return Some((TypedNull::Struct, e));
    }
    None
}

/// Parse an Ion null value: `null`, `null.int`, ...
pub fn ion_null(s: &[char], pos: usize) -> (r: Result<(IonNull, usize), ParseError>)
    requires
        pos <= s@.len(),
    ensures
        (match r {
            Ok((v, e)) => Some((v, e as int)),
            Err(_) => None,
        }) == spec_ion_null(s@, pos as int),
        r matches Err(e) ==> e == ParseError::Backtrack,
        r matches Ok((v, e)) ==> pos < e <= s@.len(),
{
    proof {
        reveal_strlit("null");
    }
    let p = match kw(s, pos, "null") {
        Some(p) => p,
        None => {
            return Err(ParseError::Backtrack);
        },
    };
    match ch(s, p, '.') {
        Some(q) => match null_type(s, q) {
            Some((t, e)) => Ok((IonNull::Typed(t), e)),
            None => Err(ParseError::Backtrack),
        },
        None => Ok((IonNull::Generic, p)),
    }
}

/// Parse the PartiQL `MISSING` literal.
pub fn missing(s: &[char], pos: usize) -> (r: Result<((), usize), ParseError>)
    requires
        pos <= s@.len(),
    ensures
        r is Ok <==> kw_at(s@, pos as int, "MISSING"@),
        r matches Ok((_, e)) ==> e == pos + "MISSING"@.len(),
        r matches Err(e) ==> e == ParseError::Backtrack,
{
    match kw(s, pos, "MISSING") {
        Some(e) => Ok(((), e)),
        None => Err(ParseError::Backtrack),
    }
}

} // verus!
