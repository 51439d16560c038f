//! PartiQL identifiers: table names, column names, aliases.
//!
//! - Unquoted: `users`, `email`, `_private`: ASCII letters, digits and `_`,
//!   starting with a letter or `_`.
//! - Quoted: `"fde.users"`, `"my table"`: any chars but `"` between double
//!   quotes, at least one.
//!
//! ```text
//! identifier       ::= unquoted_ident | quoted_ident
//! unquoted_ident   ::= [a-zA-Z_] [a-zA-Z0-9_]*
//! quoted_ident     ::= '"' [^"]+ '"'
//! dotted_path      ::= identifier ('.' identifier)*
//! ```
use crate::parse_context::ParseError;
use crate::text::{
    append_string, char_at, class_contains, in_class, is_alpha, lemma_run_end, push_char, run_end,
    starts_with_char, string_of, take_while, CharClass,
};
use vstd::prelude::*;

verus! {

/// The plain view of a scanner result: the text and the end position.
pub open spec fn text_result(r: Result<(String, usize), ParseError>) -> Option<(Seq<char>, int)> {
    match r {
        Ok((v, p)) => Some((v@, p as int)),
        Err(_) => None,
    }
}

/// A quoted identifier at `pos`: its content and the position past the closing quote.
pub open spec fn spec_quoted_identifier(s: Seq<char>, pos: int) -> Option<(Seq<char>, int)> {
    if char_at(s, pos, '"') {
        let e = run_end(s, pos + 1, CharClass::NotDoubleQuote);
        if e > pos + 1 && e < s.len() {
            Some((s.subrange(pos + 1, e), e + 1))
        } else {
            None
        }
    } else {
        None
    }
}

/// An unquoted identifier at `pos`.
pub open spec fn spec_unquoted_identifier(s: Seq<char>, pos: int) -> Option<(Seq<char>, int)> {
    if 0 <= pos < s.len() && in_class(s[pos], CharClass::IdentStart) {
        let e = run_end(s, pos + 1, CharClass::Word);
        Some((s.subrange(pos, e), e))
    } else {
        None
    }
}

/// An identifier at `pos`: quoted if it starts with `"`, else unquoted.
pub open spec fn spec_identifier(s: Seq<char>, pos: int) -> Option<(Seq<char>, int)> {
    match spec_quoted_identifier(s, pos) {
        Some(r) => Some(r),
        None => spec_unquoted_identifier(s, pos),
    }
}

/// An identifier begins with `"`, a letter or `_`.
pub proof fn lemma_identifier_start(s: Seq<char>, pos: int)
    ensures
        spec_identifier(s, pos) is Some ==> 0 <= pos < s.len() && (s[pos] == '"' || is_alpha(s[pos]) || s[pos]
            == '_'),
{
}

pub proof fn lemma_identifier_advances(s: Seq<char>, pos: int)
    requires
        0 <= pos <= s.len(),
    ensures
        spec_identifier(s, pos) matches Some((v, p)) ==> pos < p <= s.len() && v.len() > 0,
        spec_quoted_identifier(s, pos) matches Some((v, p)) ==> pos + 3 <= p <= s.len(),
        spec_unquoted_identifier(s, pos) matches Some((v, p)) ==> pos < p <= s.len(),
{
    if pos + 1 <= s.len() {
        lemma_run_end(s, pos + 1, CharClass::NotDoubleQuote);
        lemma_run_end(s, pos + 1, CharClass::Word);
    }
}

/// `('.' identifier)*` from `p`: the text it spells (dots included) and its end.
pub open spec fn spec_dotted_rest(s: Seq<char>, p: int) -> Option<(Seq<char>, int)>
    decreases s.len() - p,
{
    if 0 <= p && char_at(s, p, '.') {
        match spec_identifier(s, p + 1) {
            None => None,
            Some((v, q)) => {
                proof {
                    lemma_identifier_advances(s, p + 1);
                }
                match spec_dotted_rest(s, q) {
                    None => None,
                    Some((t, r)) => Some((seq!['.'] + v + t, r)),
                }
            },
        }
    } else {
        Some((Seq::empty(), p))
    }
}

/// A dotted path at `pos`, joined with `.`.
pub open spec fn spec_dotted_path(s: Seq<char>, pos: int) -> Option<(Seq<char>, int)> {
    match spec_identifier(s, pos) {
        None => None,
        Some((v, q)) => match spec_dotted_rest(s, q) {
            None => None,
            Some((t, r)) => Some((v + t, r)),
        },
    }
}

pub proof fn lemma_dotted_rest_bounds(s: Seq<char>, p: int)
    requires
        0 <= p <= s.len(),
    ensures
        spec_dotted_rest(s, p) matches Some((t, r)) ==> p <= r <= s.len(),
    decreases s.len() - p,
{
    if char_at(s, p, '.') {
        lemma_identifier_advances(s, p + 1);
        if let Some((v, q)) = spec_identifier(s, p + 1) {
            lemma_dotted_rest_bounds(s, q);
        }
    }
}

pub proof fn lemma_dotted_path_advances(s: Seq<char>, pos: int)
    requires
        0 <= pos <= s.len(),
    ensures
        spec_dotted_path(s, pos) matches Some((v, q)) ==> pos < q <= s.len(),
{
    lemma_identifier_advances(s, pos);
    if let Some((v, q)) = spec_identifier(s, pos) {
        lemma_dotted_rest_bounds(s, q);
    }
}

/// Quoted identifier: `"some.table"` gives `some.table`.
pub fn quoted_identifier(s: &[char], pos: usize) -> (r: Result<(String, usize), ParseError>)
    requires
        pos <= s@.len(),
    ensures
        text_result(r) == spec_quoted_identifier(s@, pos as int),
        r matches Err(e) ==> e == ParseError::Backtrack,
{
    let n = s.len();
    if !starts_with_char(s, pos, '"') {
        return Err(ParseError::Backtrack);
    }
    let e = take_while(s, pos + 1, CharClass::NotDoubleQuote);
    if e > pos + 1 && e < s.len() {
        let v = string_of(s, pos + 1, e);
        Ok((v, e + 1))
    } else {
        Err(ParseError::Backtrack)
    }
}

/// Unquoted identifier: `tableName`, `_field1`, `email`.
///
/// Does not reject keywords; callers check those separately.
pub fn unquoted_identifier(s: &[char], pos: usize) -> (r: Result<(String, usize), ParseError>)
    requires
        pos <= s@.len(),
    ensures
        text_result(r) == spec_unquoted_identifier(s@, pos as int),
        r matches Err(e) ==> e == ParseError::Backtrack,
{
    if pos < s.len() && class_contains(s[pos], CharClass::IdentStart) {
        let e = take_while(s, pos + 1, CharClass::Word);
        let v = string_of(s, pos, e);
        Ok((v, e))
    } else {
        Err(ParseError::Backtrack)
    }
}

/// Identifier: quoted first, then unquoted.
pub fn identifier(s: &[char], pos: usize) -> (r: Result<(String, usize), ParseError>)
    requires
        pos <= s@.len(),
    ensures
        text_result(r) == spec_identifier(s@, pos as int),
        r matches Err(e) ==> e == ParseError::Backtrack,
        r matches Ok((v, p)) ==> pos < p <= s@.len(),
{
    proof {
        lemma_identifier_advances(s@, pos as int);
    }
    match quoted_identifier(s, pos) {
        Ok(r) => Ok(r),
        Err(_) => unquoted_identifier(s, pos),
    }
}

/// Identifier together with whether it was double-quoted.
pub fn identifier_with_case(s: &[char], pos: usize) -> (r: Result<(String, bool, usize), ParseError>)
    requires
        pos <= s@.len(),
    ensures
        r matches Ok((v, q, p)) ==> spec_identifier(s@, pos as int) == Some((v@, p as int))
            && q == spec_quoted_identifier(s@, pos as int) is Some && pos < p <= s@.len(),
        r is Err ==> spec_identifier(s@, pos as int) is None,
        r matches Err(e) ==> e == ParseError::Backtrack,
{
    proof {
        lemma_identifier_advances(s@, pos as int);
    }
    match quoted_identifier(s, pos) {
        Ok((v, p)) => Ok((v, true, p)),
        Err(_) => match unquoted_identifier(s, pos) {
            Ok((v, p)) => Ok((v, false, p)),
            Err(e) => Err(e),
        },
    }
}

/// Dotted path: `a.b.c` or `"schema"."table".column`, joined with `.`.
///
/// After each `.` an identifier must follow, else the whole path fails.
pub fn dotted_path(s: &[char], pos: usize) -> (r: Result<(String, usize), ParseError>)
    requires
        pos <= s@.len(),
    ensures
        text_result(r) == spec_dotted_path(s@, pos as int),
        r matches Err(e) ==> e == ParseError::Backtrack,
{
    let (mut path, mut p) = identifier(s, pos)?;
    while p < s.len() && s[p] == '.'
        invariant
            pos < p <= s@.len(),
            spec_dotted_path(s@, pos as int) == (match spec_dotted_rest(s@, p as int) {
                None => None,
                Some((t, r)) => Some((path@ + t, r)),
            }),
        decreases s@.len() - p,
    {
        let ghost old_path = path@;
        let (next, q) = identifier(s, p + 1)?;
        proof {
            lemma_identifier_advances(s@, p + 1);
        }
        push_char(&mut path, '.');
        append_string(&mut path, &next);
        proof {
            match spec_dotted_rest(s@, q as int) {
                None => {},
                Some((t, r)) => {
                    assert(path@ + t =~= old_path + (seq!['.'] + next@ + t));
                },
            }
        }
        p = q;
    }
    Ok((path, p))
}

} // verus!
