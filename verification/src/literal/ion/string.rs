//! Ion strings, SQL strings and escape sequences.
//!
//! ```text
//! short_string ::= '"' (char | escape)* '"'
//! sql_string   ::= "'" ([^'] | "''")* "'"
//! escape ::= '\\' ('\\' | '"' | '\'' | '/' | 'a' | 'b' | 'f' | 'n' | 'r' | 't' | 'v' | '0'
//!           | 'x' hex hex
//!           | 'u' hex hex hex hex
//!           | 'U' hex hex hex hex hex hex hex hex)
//! ```
//! SQL strings escape a single quote by doubling it (`'it''s'` is `it's`)
//! and treat backslash as an ordinary char. Ion strings use backslash
//! escapes.
use crate::identifier::text_result;
use crate::parse_context::ParseError;
use crate::text::{char_at, in_class, lemma_run_end, push_char, push_range, run_end, take_while, CharClass};
use vstd::prelude::*;

verus! {

/// The value of one hexadecimal digit.
pub open spec fn hex_digit_value(c: char) -> nat {
    if '0' <= c && c <= '9' {
        (c as int - '0' as int) as nat
    } else if 'a' <= c && c <= 'f' {
        (c as int - 'a' as int + 10) as nat
    } else {
        (c as int - 'A' as int + 10) as nat
    }
}

pub open spec fn all_hex(t: Seq<char>) -> bool {
    forall|i: int| 0 <= i < t.len() ==> #[trigger] crate::text::is_hex_digit(t[i])
}

/// Value of a sequence of hex digits, most significant first.
pub open spec fn hex_value(t: Seq<char>) -> nat
    decreases t.len(),
{
    if t.len() == 0 {
        0
    } else {
        hex_value(t.drop_last()) * 16 + hex_digit_value(t.last())
    }
}

/// What `u32::from_str_radix(t, 16)` accepts: an optional leading `+`
/// followed by at least one hex digit (at most eight here, so no overflow).
pub open spec fn radix16(t: Seq<char>) -> Option<nat> {
    let digits = if t.len() > 0 && t[0] == '+' { t.drop_first() } else { t };
    if digits.len() > 0 && all_hex(digits) {
        Some(hex_value(digits))
    } else {
        None
    }
}

/// A Unicode scalar value: what `char::from_u32` accepts.
pub open spec fn is_scalar(v: nat) -> bool {
    v <= 0x10FFFF && !(0xD800 <= v && v <= 0xDFFF)
}

/// `n` chars at `p` read as a hex code point.
pub open spec fn spec_hex_escape(s: Seq<char>, p: int, n: int) -> Option<(char, int)> {
    if 0 <= p && p + n <= s.len() {
        match radix16(s.subrange(p, p + n)) {
            Some(v) => if is_scalar(v) {
                Some((v as char, p + n))
            } else {
                None
            },
            None => None,
        }
    } else {
        None
    }
}

/// The escape whose letter is at `p` (just after the backslash).
pub open spec fn spec_escape(s: Seq<char>, p: int) -> Option<(char, int)> {
    if 0 <= p < s.len() {
        let c = s[p];
        if c == '\\' {
            Some(('\\', p + 1))
        } else if c == '"' {
            Some(('"', p + 1))
        } else if c == '\'' {
            Some(('\'', p + 1))
        } else if c == '/' {
            Some(('/', p + 1))
        } else if c == 'a' {
            Some(('\x07', p + 1))
        } else if c == 'b' {
            Some(('\x08', p + 1))
        } else if c == 'f' {
            Some(('\x0C', p + 1))
        } else if c == 'n' {
            Some(('\n', p + 1))
        } else if c == 'r' {
            Some(('\r', p + 1))
        } else if c == 't' {
            Some(('\t', p + 1))
        } else if c == 'v' {
            Some(('\x0B', p + 1))
        } else if c == '0' {
            Some(('\0', p + 1))
        } else if c == 'x' {
            spec_hex_escape(s, p + 1, 2)
        } else if c == 'u' {
            spec_hex_escape(s, p + 1, 4)
        } else if c == 'U' {
            spec_hex_escape(s, p + 1, 8)
        } else {
            None
        }
    } else {
        None
    }
}

/// The escape table of Ion strings: the character after a backslash
/// stands for the character that the Ion text format gives it, whatever
/// surrounds it: `\\ \" \' \/` for themselves, `\a` bell (U+0007),
/// `\b` backspace (U+0008), `\f` form feed (U+000C), `\n` line feed
/// (U+000A), `\r` carriage return (U+000D), `\t` tab (U+0009), `\v`
/// vertical tab (U+000B), `\0` NUL; each takes one character.
pub proof fn law_escape_table(s: Seq<char>, p: int)
    requires
        0 <= p < s.len(),
    ensures
        s[p] == '\\' ==> spec_escape(s, p) == Some(('\u{5c}', p + 1)),
        s[p] == '"' ==> spec_escape(s, p) == Some(('\u{22}', p + 1)),
        s[p] == '\'' ==> spec_escape(s, p) == Some(('\u{27}', p + 1)),
        s[p] == '/' ==> spec_escape(s, p) == Some(('\u{2f}', p + 1)),
        s[p] == 'a' ==> spec_escape(s, p) == Some(('\u{7}', p + 1)),
        s[p] == 'b' ==> spec_escape(s, p) == Some(('\u{8}', p + 1)),
        s[p] == 'f' ==> spec_escape(s, p) == Some(('\u{c}', p + 1)),
        s[p] == 'n' ==> spec_escape(s, p) == Some(('\u{a}', p + 1)),
        s[p] == 'r' ==> spec_escape(s, p) == Some(('\u{d}', p + 1)),
        s[p] == 't' ==> spec_escape(s, p) == Some(('\u{9}', p + 1)),
        s[p] == 'v' ==> spec_escape(s, p) == Some(('\u{b}', p + 1)),
        s[p] == '0' ==> spec_escape(s, p) == Some(('\u{0}', p + 1)),
{
}

/// A `\x` escape reads the two characters after the `x` as one
/// hexadecimal number, most significant digit first, and stands for the
/// character with that code: the digits `0`-`9` count 0 to 9, `a`-`f` and
/// `A`-`F` 10 to 15.
pub proof fn law_hex_escape(s: Seq<char>, p: int, hi: int, lo: int)
    requires
        0 <= p,
        p + 3 <= s.len(),
        s[p] == 'x',
        0 <= hi < 16,
        0 <= lo < 16,
        s[p + 1] == digit_for(hi),
        s[p + 2] == digit_for(lo) || (lo >= 10 && s[p + 2] == upper_digit_for(lo)),
    ensures
        spec_escape(s, p) == Some(((hi * 16 + lo) as char, p + 3)),
{
    let t = s.subrange(p + 1, p + 3);
    assert(t[0] == s[p + 1] && t[1] == s[p + 2]);
    assert(t.drop_last().drop_last().len() == 0);
    assert(hex_value(t.drop_last()) == hex_value(t.drop_last().drop_last()) * 16 + hex_digit_value(t[0]));
    assert(all_hex(t));
    assert(hex_value(t) == hi * 16 + lo);
}

/// The lower-case hexadecimal digit for `d` (0 to 15).
pub open spec fn digit_for(d: int) -> char {
    if d < 10 {
        (48 + d) as char
    } else {
        (97 + d - 10) as char
    }
}

/// The upper-case hexadecimal digit for `d` (10 to 15).
pub open spec fn upper_digit_for(d: int) -> char {
    (65 + d - 10) as char
}

/// A run of characters of `cls` from `a` that ends where one is not of
/// `cls` (or at the end) is the run that `run_end` finds.
proof fn lemma_run_end_exact(s: Seq<char>, a: int, b: int, cls: CharClass)
    requires
        0 <= a <= b <= s.len(),
        forall|m: int| a <= m < b ==> in_class(s[m], cls),
        b == s.len() || !in_class(s[b], cls),
    ensures
        run_end(s, a, cls) == b,
    decreases b - a,
{
    if a < b {
        lemma_run_end_exact(s, a + 1, b, cls);
    }
}

/// An Ion string with one line-feed, carriage-return or tab escape in
/// it: the text before the backslash, the character that the escape
/// stands for (U+000A for `\n`, U+000D for `\r`, U+0009 for `\t`), then
/// the text up to the closing quote; the string ends after that quote.
pub proof fn law_ion_string_escape(s: Seq<char>, pos: int, e: int, f: int)
    requires
        0 <= pos < e,
        e + 2 <= f < s.len(),
        s[pos] == '"',
        forall|m: int| pos < m < e ==> s[m] != '"' && s[m] != '\\',
        s[e] == '\\',
        s[e + 1] == 'n' || s[e + 1] == 'r' || s[e + 1] == 't',
        forall|m: int| e + 2 <= m < f ==> s[m] != '"' && s[m] != '\\',
        s[f] == '"',
    ensures
        spec_ion_string(s, pos) == Some(
            (
                s.subrange(pos + 1, e).push(
                    if s[e + 1] == 'n' {
                        '\u{a}'
                    } else if s[e + 1] == 'r' {
                        '\u{d}'
                    } else {
                        '\u{9}'
                    },
                ) + s.subrange(e + 2, f),
                f + 1,
            ),
        ),
{
    lemma_run_end_exact(s, pos + 1, e, CharClass::NotDoubleQuoteOrBackslash);
    lemma_run_end_exact(s, e + 2, f, CharClass::NotDoubleQuoteOrBackslash);
    law_escape_table(s, e + 1);
    assert(body_class('"') == CharClass::NotDoubleQuoteOrBackslash);
    assert(spec_escaped_body(s, e + 2, '"') == Some((s.subrange(e + 2, f), f + 1)));
}

pub proof fn lemma_escape_advances(s: Seq<char>, p: int)
    ensures
        spec_escape(s, p) matches Some((c, q)) ==> p < q <= s.len(),
{
}

/// The chunk class inside a quoted body closed by `quote`.
pub open spec fn body_class(quote: char) -> CharClass {
    if quote == '"' {
        CharClass::NotDoubleQuoteOrBackslash
    } else {
        CharClass::NotSingleQuoteOrBackslash
    }
}

/// A backslash-escaped body closed by `quote` (`"` or `'`), from `p`:
/// the decoded text and the position past the closing quote.
pub open spec fn spec_escaped_body(s: Seq<char>, p: int, quote: char) -> Option<(Seq<char>, int)>
    decreases s.len() - p,
{
    if 0 <= p <= s.len() {
        let e = run_end(s, p, body_class(quote));
        if e < s.len() && s[e] == quote {
            Some((s.subrange(p, e), e + 1))
        } else if e < s.len() && s[e] == '\\' {
            match spec_escape(s, e + 1) {
                Some((c, q)) => {
                    proof {
                        lemma_run_end(s, p, body_class(quote));
                        lemma_escape_advances(s, e + 1);
                    }
                    match spec_escaped_body(s, q, quote) {
                        Some((t, r)) => Some((s.subrange(p, e).push(c) + t, r)),
                        None => None,
                    }
                },
                None => None,
            }
        } else {
            None
        }
    } else {
        None
    }
}

/// An Ion double-quoted string at `pos`.
pub open spec fn spec_ion_string(s: Seq<char>, pos: int) -> Option<(Seq<char>, int)> {
    if char_at(s, pos, '"') {
        spec_escaped_body(s, pos + 1, '"')
    } else {
        None
    }
}

/// The body of a SQL string from `p`: the text and the position past the closing quote.
pub open spec fn spec_sql_body(s: Seq<char>, p: int) -> Option<(Seq<char>, int)>
    decreases s.len() - p,
{
    if 0 <= p <= s.len() {
        let e = run_end(s, p, CharClass::NotSingleQuote);
        if e >= s.len() {
            None
        } else if char_at(s, e + 1, '\'') {
            proof {
                lemma_run_end(s, p, CharClass::NotSingleQuote);
            }
            match spec_sql_body(s, e + 2) {
                Some((t, r)) => Some((s.subrange(p, e).push('\'') + t, r)),
                None => None,
            }
        } else {
            Some((s.subrange(p, e), e + 1))
        }
    } else {
        None
    }
}

/// A SQL single-quoted string at `pos`.
pub open spec fn spec_sql_string(s: Seq<char>, pos: int) -> Option<(Seq<char>, int)> {
    if char_at(s, pos, '\'') {
        spec_sql_body(s, pos + 1)
    } else {
        None
    }
}

pub proof fn lemma_sql_body_advances(s: Seq<char>, p: int)
    requires
        0 <= p <= s.len(),
    ensures
        spec_sql_body(s, p) matches Some((t, r)) ==> p < r <= s.len(),
    decreases s.len() - p,
{
    lemma_run_end(s, p, CharClass::NotSingleQuote);
    let e = run_end(s, p, CharClass::NotSingleQuote);
    if e < s.len() && char_at(s, e + 1, '\'') {
        lemma_sql_body_advances(s, e + 2);
    }
}

pub proof fn lemma_escaped_body_advances(s: Seq<char>, p: int, quote: char)
    requires
        0 <= p <= s.len(),
    ensures
        spec_escaped_body(s, p, quote) matches Some((t, r)) ==> p < r <= s.len(),
    decreases s.len() - p,
{
    lemma_run_end(s, p, body_class(quote));
    let e = run_end(s, p, body_class(quote));
    if e < s.len() && s[e] != quote && s[e] == '\\' {
        match spec_escape(s, e + 1) {
            Some((c, q)) => {
                lemma_escaped_body_advances(s, q, quote);
            },
            None => {},
        }
    }
}

/// Trusted: calls `char::from_u32`, which std documents as returning the
/// char with that code when it is a Unicode scalar value (at most
/// `0x10FFFF` and not a surrogate) and `None` otherwise.
#[verifier::external_body]
fn char_from_u32(v: u32) -> (r: Option<char>)
    ensures
        r is Some <==> is_scalar(v as nat),
        r matches Some(c) ==> c == v as char,
{
    char::from_u32(v)
}

pub fn hex_digit_of(c: char) -> (r: u32)
    requires
        crate::text::is_hex_digit(c),
    ensures
        r == hex_digit_value(c),
        r < 16,
{
    if '0' <= c && c <= '9' {
        (c as u32) - ('0' as u32)
    } else if 'a' <= c && c <= 'f' {
        (c as u32) - ('a' as u32) + 10
    } else {
        (c as u32) - ('A' as u32) + 10
    }
}

pub fn is_hex(c: char) -> (r: bool)
    ensures
        r == crate::text::is_hex_digit(c),
{
    ('0' <= c && c <= '9') || ('a' <= c && c <= 'f') || ('A' <= c && c <= 'F')
}

pub open spec fn pow16(n: nat) -> nat
    decreases n,
{
    if n == 0 {
        1
    } else {
        16 * pow16((n - 1) as nat)
    }
}

proof fn lemma_hex_value_bound(t: Seq<char>)
    requires
        all_hex(t),
    ensures
        hex_value(t) < pow16(t.len()),
    decreases t.len(),
{
    if t.len() > 0 {
        assert(all_hex(t.drop_last())) by {
            assert forall|i: int| 0 <= i < t.drop_last().len() implies #[trigger] crate::text::is_hex_digit(
                t.drop_last()[i],
            ) by {
                assert(crate::text::is_hex_digit(t[i]));
            }
        }
        lemma_hex_value_bound(t.drop_last());
        assert(crate::text::is_hex_digit(t[t.len() - 1]));
    }
}

/// Parse `n` (at most 8) chars at `p` as a hex code point and turn it into a char.
pub fn parse_hex_escape(s: &[char], p: usize, n: usize) -> (r: Result<(char, usize), ParseError>)
    requires
        p <= s@.len(),
        1 <= n <= 8,
    ensures
        (match r {
            Ok((c, q)) => Some((c, q as int)),
            Err(_) => None,
        }) == spec_hex_escape(s@, p as int, n as int),
        r matches Err(e) ==> e == ParseError::Backtrack,
{
    let len = s.len();
    if n > len - p {
        return Err(ParseError::Backtrack);
    }
    let ghost t = s@.subrange(p as int, p + n);
    let mut start = p;
    if s[p] == '+' {
        start = p + 1;
    }
    let ghost digits = s@.subrange(start as int, p + n);
    proof {
        assert(digits =~= (if t.len() > 0 && t[0] == '+' { t.drop_first() } else { t }));
    }
    if start == p + n {
        return Err(ParseError::Backtrack);
    }
    let end = p + n;
    let mut v: u32 = 0;
    let mut i = start;
    while i < end
        invariant
            end == p + n,
            start <= i <= p + n <= s@.len(),
            p <= start <= p + 1,
            digits == s@.subrange(start as int, p + n),
            t == s@.subrange(p as int, p + n),
            digits == (if t.len() > 0 && t[0] == '+' { t.drop_first() } else { t }),
            all_hex(s@.subrange(start as int, i as int)),
            v == hex_value(s@.subrange(start as int, i as int)),
            i - start <= 8,
            n <= 8,
        decreases end - i,
    {
        let c = s[i];
        if !is_hex(c) {
            proof {
                assert(digits[i - start] == c);
                assert(!crate::text::is_hex_digit(digits[i - start]));
                assert(!all_hex(digits));
                assert(radix16(t) is None);
            }
            return Err(ParseError::Backtrack);
        }
        proof {
            lemma_hex_value_bound(s@.subrange(start as int, i as int));
            assert(i - start < 8);
            lemma_pow16_le(((i - start) as nat));
        }
        let d = hex_digit_of(c);
        let ghost prev = s@.subrange(start as int, i as int);
        v = v * 16 + d;
        proof {
            let next = s@.subrange(start as int, i + 1);
            assert(next.drop_last() =~= prev);
            assert(next.last() == c);
            assert forall|j: int| 0 <= j < next.len() implies #[trigger] crate::text::is_hex_digit(
                next[j],
            ) by {
                if j < prev.len() {
                    assert(next[j] == prev[j]);
                }
            }
        }
        i = i + 1;
    }
    match char_from_u32(v) {
        Some(c) => Ok((c, p + n)),
        None => Err(ParseError::Backtrack),
    }
}

proof fn lemma_pow16_le(k: nat)
    requires
        k < 8,
    ensures
        pow16(k) <= 0x1000_0000,
{
    reveal_with_fuel(pow16, 9);
    if k == 0 {
    } else if k == 1 {
    } else if k == 2 {
    } else if k == 3 {
    } else if k == 4 {
    } else if k == 5 {
    } else if k == 6 {
    } else {
    }
}

/// Parse a single escape after `\`; `p` is at the escape letter.
pub fn parse_escape_char(s: &[char], p: usize) -> (r: Result<(char, usize), ParseError>)
    requires
        p <= s@.len(),
    ensures
        (match r {
            Ok((c, q)) => Some((c, q as int)),
            Err(_) => None,
        }) == spec_escape(s@, p as int),
        r matches Err(e) ==> e == ParseError::Backtrack,
{
    if p >= s.len() {
        return Err(ParseError::Backtrack);
    }
    let c = s[p];
    match c {
        '\\' => Ok(('\\', p + 1)),
        '"' => Ok(('"', p + 1)),
        '\'' => Ok(('\'', p + 1)),
        '/' => Ok(('/', p + 1)),
        'a' => Ok(('\x07', p + 1)),
        'b' => Ok(('\x08', p + 1)),
        'f' => Ok(('\x0C', p + 1)),
        'n' => Ok(('\n', p + 1)),
        'r' => Ok(('\r', p + 1)),
        't' => Ok(('\t', p + 1)),
        'v' => Ok(('\x0B', p + 1)),
        '0' => Ok(('\0', p + 1)),
        'x' => parse_hex_escape(s, p + 1, 2),
        'u' => parse_hex_escape(s, p + 1, 4),
        'U' => parse_hex_escape(s, p + 1, 8),
        _ => Err(ParseError::Backtrack),
    }
}

/// Decode a backslash-escaped body closed by `quote`, starting at `p`.
pub fn escaped_body(s: &[char], p: usize, quote: char) -> (r: Result<(String, usize), ParseError>)
    requires
        p <= s@.len(),
        quote == '"' || quote == '\'',
    ensures
        text_result(r) == spec_escaped_body(s@, p as int, quote),
        r matches Err(e) ==> e == ParseError::Backtrack,
{
    let cls = if quote == '"' {
        CharClass::NotDoubleQuoteOrBackslash
    } else {
        CharClass::NotSingleQuoteOrBackslash
    };
    let mut out = String::new();
    let mut i = p;
    loop
        invariant
            p <= i <= s@.len(),
            cls == body_class(quote),
            spec_escaped_body(s@, p as int, quote) == (match spec_escaped_body(s@, i as int, quote) {
                Some((t, r)) => Some((out@ + t, r)),
                None => None,
            }),
        decreases s@.len() - i,
    {
        let e = take_while(s, i, cls);
        proof {
            lemma_run_end(s@, i as int, cls);
        }
        if e < s.len() && s[e] == quote {
            push_range(&mut out, s, i, e);
            return Ok((out, e + 1));
        } else if e < s.len() && s[e] == '\\' {
            let ghost before = out@;
            let (c, q) = parse_escape_char(s, e + 1)?;
            push_range(&mut out, s, i, e);
            push_char(&mut out, c);
            proof {
                lemma_escape_advances(s@, e + 1);
                match spec_escaped_body(s@, q as int, quote) {
                    Some((t, r)) => {
                        assert(out@ + t =~= before + (s@.subrange(i as int, e as int).push(c) + t));
                    },
                    None => {},
                }
            }
            i = q;
        } else {
            return Err(ParseError::Backtrack);
        }
    }
}

/// Parse an Ion double-quoted string: `"hello"`, `"line\nbreak"`.
pub fn ion_string(s: &[char], pos: usize) -> (r: Result<(String, usize), ParseError>)
    requires
        pos <= s@.len(),
    ensures
        text_result(r) == spec_ion_string(s@, pos as int),
        r matches Err(e) ==> e == ParseError::Backtrack,
{
    if pos < s.len() && s[pos] == '"' {
        escaped_body(s, pos + 1, '"')
    } else {
        Err(ParseError::Backtrack)
    }
}

/// Parse a SQL single-quoted string: `'hello'`, `'it''s'`.
///
/// A doubled quote stands for one quote; backslash is an ordinary char.
pub fn sql_string(s: &[char], pos: usize) -> (r: Result<(String, usize), ParseError>)
    requires
        pos <= s@.len(),
    ensures
        text_result(r) == spec_sql_string(s@, pos as int),
        r matches Err(e) ==> e == ParseError::Backtrack,
{
    if !(pos < s.len() && s[pos] == '\'') {
        return Err(ParseError::Backtrack);
    }
    let mut out = String::new();
    let mut i = pos + 1;
    loop
        invariant
            pos < i <= s@.len(),
            spec_sql_string(s@, pos as int) == (match spec_sql_body(s@, i as int) {
                Some((t, r)) => Some((out@ + t, r)),
                None => None,
            }),
        decreases s@.len() - i,
    {
        let e = take_while(s, i, CharClass::NotSingleQuote);
        proof {
            lemma_run_end(s@, i as int, CharClass::NotSingleQuote);
        }
        if e >= s.len() {
            return Err(ParseError::Backtrack);
        }
        let ghost before = out@;
        push_range(&mut out, s, i, e);
        if e + 1 < s.len() && s[e + 1] == '\'' {
            push_char(&mut out, '\'');
            proof {
                match spec_sql_body(s@, e + 2) {
                    Some((t, r)) => {
                        assert(out@ + t =~= before + (s@.subrange(i as int, e as int).push('\'') + t));
                    },
                    None => {},
                }
            }
            i = e + 2;
        } else {
            return Ok((out, e + 1));
        }
    }
}

} // verus!
