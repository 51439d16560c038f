//! Ion timestamps: bare ISO 8601 text of varying precision.
//!
//! ```text
//! timestamp ::= year 'T'
//!             | year '-' month 'T'
//!             | year '-' month '-' day ('T')?
//!             | year '-' month '-' day 'T' hour ':' minute offset
//!             | year '-' month '-' day 'T' hour ':' minute ':' second ('.' frac)? offset
//! offset    ::= 'Z' | ('+' | '-') hour ':' minute
//! ```
//! The offset's hour and minute are taken as any two chars each.
use crate::identifier::text_result;
use crate::parse_context::ParseError;
use crate::text::{
    char_at, is_digit, lemma_run_end, run_end, starts_with_char, string_of, take_while,
    CharClass,
};
use vstd::prelude::*;

verus! {

/// `n` ASCII digits at `p`.
pub open spec fn digits_at(s: Seq<char>, p: int, n: int) -> bool {
    0 <= p && p + n <= s.len() && forall|i: int| p <= i < p + n ==> #[trigger] is_digit(s[i])
}

/// A digit at `p`.
pub open spec fn digit_at(s: Seq<char>, p: int) -> bool {
    0 <= p < s.len() && is_digit(s[p])
}

/// End of a time-zone offset at `p`: `Z` or a sign, two chars, `:`, two chars.
pub open spec fn spec_offset_end(s: Seq<char>, p: int) -> Option<int> {
    if char_at(s, p, 'Z') {
        Some(p + 1)
    } else if (char_at(s, p, '+') || char_at(s, p, '-')) && p + 6 <= s.len() && s[p + 3] == ':' {
        Some(p + 6)
    } else {
        None
    }
}

/// End of the optional `.frac` then the offset, from `p`.
pub open spec fn spec_fraction_offset_end(s: Seq<char>, p: int) -> Option<int> {
    if char_at(s, p, '.') {
        let e = run_end(s, p + 1, CharClass::Digit);
        if e == p + 1 {
            None
        } else {
            spec_offset_end(s, e)
        }
    } else {
        spec_offset_end(s, p)
    }
}

/// End of `HH:MM[:SS[.frac]]offset` at `p`.
pub open spec fn spec_time_end(s: Seq<char>, p: int) -> Option<int> {
    if !digits_at(s, p, 2) || !char_at(s, p + 2, ':') || !digits_at(s, p + 3, 2) {
        None
    } else if char_at(s, p + 5, ':') {
        if !digits_at(s, p + 6, 2) {
            None
        } else {
            spec_fraction_offset_end(s, p + 8)
        }
    } else {
        spec_offset_end(s, p + 5)
    }
}

/// End of an Ion timestamp that starts at `pos`.
pub open spec fn spec_ion_timestamp_end(s: Seq<char>, pos: int) -> Option<int> {
    let p = pos + 4;
    if !digits_at(s, pos, 4) {
        None
    } else if char_at(s, p, 'T') && !digit_at(s, p + 1) {
        Some(p + 1)
    } else if !char_at(s, p, '-') || !digits_at(s, p + 1, 2) {
        None
    } else if char_at(s, p + 3, 'T') && !digit_at(s, p + 4) {
        Some(p + 4)
    } else if !char_at(s, p + 3, '-') || !digits_at(s, p + 4, 2) {
        None
    } else if !char_at(s, p + 6, 'T') {
        Some(p + 6)
    } else if !digit_at(s, p + 7) {
        Some(p + 7)
    } else {
        spec_time_end(s, p + 7)
    }
}

/// An Ion timestamp at `pos`: its text and the position past it.
pub open spec fn spec_ion_timestamp(s: Seq<char>, pos: int) -> Option<(Seq<char>, int)> {
    match spec_ion_timestamp_end(s, pos) {
        Some(e) => Some((s.subrange(pos, e), e)),
        None => None,
    }
}

/// Two ASCII digits at `p`.
fn digits2(s: &[char], p: usize) -> (r: bool)
    requires
        p <= s@.len(),
    ensures
        r == digits_at(s@, p as int, 2),
{
    let n = s.len();
    if n - p < 2 {
        return false;
    }
    let r = crate::text::is_ascii_digit(s[p]) && crate::text::is_ascii_digit(s[p + 1]);
    proof {
        if r {
            assert forall|i: int| p <= i < p + 2 implies #[trigger] is_digit(s@[i]) by {
                if i == p {
                } else {
                }
            }
        }
    }
    r
}

fn digits4(s: &[char], p: usize) -> (r: bool)
    requires
        p <= s@.len(),
    ensures
        r == digits_at(s@, p as int, 4),
{
    let n = s.len();
    if n - p < 4 {
        return false;
    }
    let r = digits2(s, p) && digits2(s, p + 2);
    proof {
        if r {
            assert forall|i: int| p <= i < p + 4 implies #[trigger] is_digit(s@[i]) by {
                if i < p + 2 {
                    assert(digits_at(s@, p as int, 2));
                } else {
                    assert(digits_at(s@, p + 2, 2));
                }
            }
        } else {
            if !digits_at(s@, p as int, 2) {
                assert(!digits_at(s@, p as int, 4));
            } else {
                assert(!digits_at(s@, p + 2, 2));
                let k = choose|i: int| p + 2 <= i < p + 4 && !is_digit(#[trigger] s@[i]);
                assert(!is_digit(s@[k]));
            }
        }
    }
    r
}

fn digit_char_at(s: &[char], p: usize) -> (r: bool)
    requires
        p <= s@.len(),
    ensures
        r == digit_at(s@, p as int),
{
    p < s.len() && crate::text::is_ascii_digit(s[p])
}

/// Parse a time-zone offset: `Z`, `+HH:MM`, `-HH:MM`.
fn parse_offset(s: &[char], p: usize) -> (r: Option<usize>)
    requires
        p <= s@.len(),
    ensures
        (match r {
            Some(q) => Some(q as int),
            None => None,
        }) == spec_offset_end(s@, p as int),
{
    let n = s.len();
    if starts_with_char(s, p, 'Z') {
        return Some(p + 1);
    }
    if (starts_with_char(s, p, '+') || starts_with_char(s, p, '-')) && n - p >= 6 && s[p + 3]
        == ':' {
        return Some(p + 6);
    }
    None
}

fn time_end(s: &[char], p: usize) -> (r: Option<usize>)
    requires
        p <= s@.len(),
    ensures
        (match r {
            Some(q) => Some(q as int),
            None => None,
        }) == spec_time_end(s@, p as int),
{
    let n = s.len();
    if !digits2(s, p) {
        return None;
    }
    if !starts_with_char(s, p + 2, ':') {
        return None;
    }
    if !digits2(s, p + 3) {
        return None;
    }
    if starts_with_char(s, p + 5, ':') {
        if !digits2(s, p + 6) {
            return None;
        }
        let q = p + 8;
        if starts_with_char(s, q, '.') {
            let e = take_while(s, q + 1, CharClass::Digit);
            if e == q + 1 {
                return None;
            }
            return parse_offset(s, e);
        }
        return parse_offset(s, q);
    }
    parse_offset(s, p + 5)
}

/// Parse an Ion timestamp, returning its text.
pub fn ion_timestamp(s: &[char], pos: usize) -> (r: Result<(String, usize), ParseError>)
    requires
        pos <= s@.len(),
    ensures
        text_result(r) == spec_ion_timestamp(s@, pos as int),
        r matches Err(e) ==> e == ParseError::Backtrack,
{
    let n = s.len();
    if !digits4(s, pos) {
        return Err(ParseError::Backtrack);
    }
    let p = pos + 4;
    let end: usize;
    if starts_with_char(s, p, 'T') && !digit_char_at(s, p + 1) {
        end = p + 1;
    } else if !starts_with_char(s, p, '-') || !digits2(s, p + 1) {
        return Err(ParseError::Backtrack);
    } else if starts_with_char(s, p + 3, 'T') && !digit_char_at(s, p + 4) {
        end = p + 4;
    } else if !starts_with_char(s, p + 3, '-') || !digits2(s, p + 4) {
        return Err(ParseError::Backtrack);
    } else if !starts_with_char(s, p + 6, 'T') {
        end = p + 6;
    } else if !digit_char_at(s, p + 7) {
        end = p + 7;
    } else {
        match time_end(s, p + 7) {
            Some(e) => {
                end = e;
            },
            None => {
                return Err(ParseError::Backtrack);
            },
        }
    }
    proof {
        lemma_ion_timestamp_end_bounds(s@, pos as int);
    }
    Ok((string_of(s, pos, end), end))
}

pub proof fn lemma_ion_timestamp_end_bounds(s: Seq<char>, pos: int)
    requires
        0 <= pos <= s.len(),
    ensures
        spec_ion_timestamp_end(s, pos) matches Some(e) ==> pos < e <= s.len(),
{
    let p = pos + 4;
    if digits_at(s, pos, 4) && p + 8 < s.len() && char_at(s, p + 15, '.') {
        lemma_run_end(s, p + 16, CharClass::Digit);
    }
    if p + 7 <= s.len() {
        let q = p + 7 + 8;
        if q + 1 <= s.len() {
            lemma_run_end(s, q + 1, CharClass::Digit);
        }
    }
}

} // verus!
