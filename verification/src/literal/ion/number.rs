//! Ion numbers: integers, decimals, floats.
//!
//! ```text
//! int       ::= ['-'] (hex_int | bin_int | dec_int)
//! dec_int   ::= [0-9_]+
//! hex_int   ::= ('0x' | '0X') [0-9a-fA-F_]+
//! bin_int   ::= ('0b' | '0B') [01_]+
//! decimal   ::= ['-'] [0-9_]+ '.' [0-9_]* [('d' | 'D') ['+' | '-'] [0-9]+]
//! float     ::= 'nan' | '+inf' | '-inf'
//!             | ['-'] [0-9_]+ '.' [0-9_]* ('e' | 'E') ['+' | '-'] [0-9]+
//! ```
//! `_` separators are dropped before the value is read. An integer must not
//! be followed by `.`, `e`, `E`, `d` or `D`; a decimal must not be followed
//! by `e` or `E`.
use crate::ast::FloatLiteral;
use crate::literal::ion::string::{hex_digit_of, hex_digit_value};
use crate::parse_context::ParseError;
use crate::text::{
    char_at, maximal_run, in_class, lemma_run_end, lit, lit_at, push_char, run_end,
    starts_with_char, take_while, CharClass,
};
use vstd::prelude::*;

verus! {

/// A parsed numeric literal.
#[derive(Debug, PartialEq)]
pub enum IonNumber {
    Integer(i64),
    Decimal(rust_decimal::Decimal),
    Float(FloatLiteral),
}

/// `t` with every `_` removed.
pub open spec fn strip_underscores(t: Seq<char>) -> Seq<char>
    decreases t.len(),
{
    if t.len() == 0 {
        t
    } else if t.last() == '_' {
        strip_underscores(t.drop_last())
    } else {
        strip_underscores(t.drop_last()).push(t.last())
    }
}

/// Value of digits in base `radix`, most significant first.
pub open spec fn radix_value(t: Seq<char>, radix: nat) -> nat
    decreases t.len(),
{
    if t.len() == 0 {
        0
    } else {
        radix_value(t.drop_last(), radix) * radix + hex_digit_value(t.last())
    }
}

/// The integer spelled by `t` (digits of `radix` and `_`), if it fits in an `i64`.
pub open spec fn spec_int_digits(t: Seq<char>, radix: nat) -> Option<int> {
    let d = strip_underscores(t);
    if d.len() > 0 && radix_value(d, radix) <= i64::MAX {
        Some(radix_value(d, radix) as int)
    } else {
        None
    }
}

pub open spec fn hex_prefix_at(s: Seq<char>, p: int) -> bool {
    char_at(s, p, '0') && (char_at(s, p + 1, 'x') || char_at(s, p + 1, 'X'))
}

pub open spec fn bin_prefix_at(s: Seq<char>, p: int) -> bool {
    char_at(s, p, '0') && (char_at(s, p + 1, 'b') || char_at(s, p + 1, 'B'))
}

/// The unsigned integer at `p`: hex, then binary, then decimal.
pub open spec fn spec_unsigned_int(s: Seq<char>, p: int) -> Option<(int, int)> {
    let hex_end = run_end(s, p + 2, CharClass::HexOrUnderscore);
    let bin_end = run_end(s, p + 2, CharClass::BinOrUnderscore);
    let dec_end = run_end(s, p, CharClass::DigitOrUnderscore);
    let hex = if hex_prefix_at(s, p) && hex_end > p + 2 {
        spec_int_digits(s.subrange(p + 2, hex_end), 16)
    } else {
        None
    };
    let bin = if bin_prefix_at(s, p) && bin_end > p + 2 {
        spec_int_digits(s.subrange(p + 2, bin_end), 2)
    } else {
        None
    };
    let dec = if dec_end > p {
        spec_int_digits(s.subrange(p, dec_end), 10)
    } else {
        None
    };
    match hex {
        Some(v) => Some((v, hex_end)),
        None => match bin {
            Some(v) => Some((v, bin_end)),
            None => match dec {
                Some(v) => Some((v, dec_end)),
                None => None,
            },
        },
    }
}

/// Chars that may not follow an integer.
pub open spec fn int_stopper(c: char) -> bool {
    c == '.' || c == 'e' || c == 'E' || c == 'd' || c == 'D'
}

/// The Ion integer at `pos`: its value and end.
pub open spec fn spec_ion_integer(s: Seq<char>, pos: int) -> Option<(int, int)> {
    let neg = char_at(s, pos, '-');
    let p = if neg { pos + 1 } else { pos };
    match spec_unsigned_int(s, p) {
        Some((v, e)) => if e < s.len() && int_stopper(s[e]) {
            None
        } else {
            Some((if neg { -v } else { v }, e))
        },
        None => None,
    }
}

/// End of `['-'] [0-9_]+ '.' [0-9_]*` at `pos` (the mantissa shared by
/// decimals and floats).
pub open spec fn spec_mantissa_end(s: Seq<char>, pos: int) -> Option<int> {
    let p = if char_at(s, pos, '-') { pos + 1 } else { pos };
    let w = run_end(s, p, CharClass::DigitOrUnderscore);
    if w > p && char_at(s, w, '.') {
        Some(run_end(s, w + 1, CharClass::DigitOrUnderscore))
    } else {
        None
    }
}

/// End of `['+' | '-'] [0-9]+` at `p`.
pub open spec fn spec_exponent_end(s: Seq<char>, p: int) -> Option<int> {
    let q = if char_at(s, p, '+') || char_at(s, p, '-') { p + 1 } else { p };
    let e = run_end(s, q, CharClass::Digit);
    if e > q {
        Some(e)
    } else {
        None
    }
}

/// End of the text of a numeric float at `pos`.
pub open spec fn spec_numeric_float_end(s: Seq<char>, pos: int) -> Option<int> {
    match spec_mantissa_end(s, pos) {
        Some(m) => if char_at(s, m, 'e') || char_at(s, m, 'E') {
            spec_exponent_end(s, m + 1)
        } else {
            None
        },
        None => None,
    }
}

/// End of the text of a decimal at `pos`.
pub open spec fn spec_decimal_end(s: Seq<char>, pos: int) -> Option<int> {
    match spec_mantissa_end(s, pos) {
        Some(m) => if char_at(s, m, 'e') || char_at(s, m, 'E') {
            None
        } else if char_at(s, m, 'd') || char_at(s, m, 'D') {
            spec_exponent_end(s, m + 1)
        } else {
            Some(m)
        },
        None => None,
    }
}

/// `raw[i..]` with `_` dropped and the first `d`/`D` (once `replaced` is
/// false) written as `e`.
pub open spec fn exponent_text_from(raw: Seq<char>, i: int, replaced: bool) -> Seq<char>
    decreases raw.len() - i,
{
    if i < 0 || i >= raw.len() {
        Seq::empty()
    } else if raw[i] == '_' {
        exponent_text_from(raw, i + 1, replaced)
    } else if !replaced && (raw[i] == 'd' || raw[i] == 'D') {
        seq!['e'] + exponent_text_from(raw, i + 1, true)
    } else {
        seq![raw[i]] + exponent_text_from(raw, i + 1, replaced)
    }
}

/// Decimal text in the form the decimal reader takes: `_` dropped, the
/// `d`/`D` exponent marker written `e`, and a `0` added after a trailing `.`.
pub open spec fn decimal_text(raw: Seq<char>) -> Seq<char> {
    let t = exponent_text_from(raw, 0, false);
    if t.len() > 0 && t.last() == '.' {
        t.push('0')
    } else {
        t
    }
}

/// What `str::parse::<rust_decimal::Decimal>` gives for a text; a function
/// of the text alone.
pub uninterp spec fn decimal_of_text(t: Seq<char>) -> Option<rust_decimal::Decimal>;

/// Read a decimal from its text.
///
/// Trusted: calls `str::parse::<rust_decimal::Decimal>` (its `FromStr`).
/// The result is named `decimal_of_text`; nothing more is stated of it.
#[verifier::external_body]
fn parse_decimal_text(t: &str) -> (r: Option<rust_decimal::Decimal>)
    ensures
        r == decimal_of_text(t@),
{
    t.parse::<rust_decimal::Decimal>().ok()
}

/// The Ion number at `pos` as a plain value: which kind, and its end.
pub enum NumberShape {
    Integer(int),
    Decimal(Seq<char>),
    Float(Seq<char>),
    Nan,
    PosInf,
    NegInf,
}

/// The special float at `pos`.
pub open spec fn spec_special_float(s: Seq<char>, pos: int) -> Option<(NumberShape, int)> {
    if lit_at(s, pos, seq!['n', 'a', 'n']) {
        Some((NumberShape::Nan, pos + 3))
    } else if lit_at(s, pos, seq!['+', 'i', 'n', 'f']) {
        Some((NumberShape::PosInf, pos + 4))
    } else if lit_at(s, pos, seq!['-', 'i', 'n', 'f']) {
        Some((NumberShape::NegInf, pos + 4))
    } else {
        None
    }
}

/// The Ion float at `pos`: special first, then numeric.
pub open spec fn spec_ion_float(s: Seq<char>, pos: int) -> Option<(NumberShape, int)> {
    match spec_special_float(s, pos) {
        Some(r) => Some(r),
        None => match spec_numeric_float_end(s, pos) {
            Some(e) => Some((NumberShape::Float(strip_underscores(s.subrange(pos, e))), e)),
            None => None,
        },
    }
}

/// The Ion decimal at `pos`: its reader text and end, when the reader accepts it.
pub open spec fn spec_ion_decimal(s: Seq<char>, pos: int) -> Option<(NumberShape, int)> {
    match spec_decimal_end(s, pos) {
        Some(e) => if decimal_of_text(decimal_text(s.subrange(pos, e))) is Some {
            Some((NumberShape::Decimal(decimal_text(s.subrange(pos, e))), e))
        } else {
            None
        },
        None => None,
    }
}

/// Any Ion number at `pos`: float first, then decimal, then integer.
pub open spec fn spec_ion_number(s: Seq<char>, pos: int) -> Option<(NumberShape, int)> {
    match spec_ion_float(s, pos) {
        Some(r) => Some(r),
        None => match spec_ion_decimal(s, pos) {
            Some(r) => Some(r),
            None => match spec_ion_integer(s, pos) {
                Some((v, e)) => Some((NumberShape::Integer(v), e)),
                None => None,
            },
        },
    }
}

/// A parsed number against its plain shape.
pub open spec fn number_matches(n: IonNumber, shape: NumberShape) -> bool {
    match (n, shape) {
        (IonNumber::Integer(v), NumberShape::Integer(w)) => v == w,
        (IonNumber::Decimal(d), NumberShape::Decimal(t)) => decimal_of_text(t) == Some(d),
        (IonNumber::Float(FloatLiteral::Finite(f)), NumberShape::Float(t)) => f@ == t,
        (IonNumber::Float(FloatLiteral::Nan), NumberShape::Nan) => true,
        (IonNumber::Float(FloatLiteral::PosInfinity), NumberShape::PosInf) => true,
        (IonNumber::Float(FloatLiteral::NegInfinity), NumberShape::NegInf) => true,
        _ => false,
    }
}

/// A scanner result against a spec result.
pub open spec fn number_result(
    r: Result<(IonNumber, usize), ParseError>,
    spec: Option<(NumberShape, int)>,
) -> bool {
    match (r, spec) {
        (Ok((n, p)), Some((shape, q))) => number_matches(n, shape) && p == q,
        (Err(e), None) => e == ParseError::Backtrack,
        _ => false,
    }
}

proof fn lemma_radix_value_mono(t: Seq<char>, u: Seq<char>, radix: nat)
    requires
        radix >= 1,
    ensures
        radix_value(t, radix) <= radix_value(t + u, radix),
    decreases u.len(),
{
    if u.len() > 0 {
        lemma_radix_value_mono(t, u.drop_last(), radix);
        assert((t + u).drop_last() =~= t + u.drop_last());
        assert(radix_value(t + u.drop_last(), radix) <= radix_value(t + u.drop_last(), radix) * radix)
            by (nonlinear_arith)
            requires
                radix >= 1,
        ;
    }
}

proof fn lemma_strip_push(t: Seq<char>, c: char)
    ensures
        strip_underscores(t.push(c)) == (if c == '_' {
            strip_underscores(t)
        } else {
            strip_underscores(t).push(c)
        }),
{
    assert(t.push(c).drop_last() =~= t);
}

proof fn lemma_strip_prefix(t: Seq<char>, i: int) -> (u: Seq<char>)
    requires
        0 <= i <= t.len(),
    ensures
        strip_underscores(t) == strip_underscores(t.subrange(0, i)) + u,
    decreases t.len() - i,
{
    if i == t.len() {
        assert(t.subrange(0, i) =~= t);
        let u = Seq::<char>::empty();
        assert(strip_underscores(t) =~= strip_underscores(t.subrange(0, i)) + u);
        u
    } else {
        let u = lemma_strip_prefix(t, i + 1);
        assert(t.subrange(0, i + 1) =~= t.subrange(0, i).push(t[i]));
        lemma_strip_push(t.subrange(0, i), t[i]);
        if t[i] == '_' {
            u
        } else {
            assert(strip_underscores(t) =~= strip_underscores(t.subrange(0, i)) + (seq![t[i]] + u));
            seq![t[i]] + u
        }
    }
}

/// Read digits of `radix` with `_` separators in `s[a..b]` into an `i64`.
fn parse_int_no_alloc(s: &[char], a: usize, b: usize, radix: u32) -> (r: Option<i64>)
    requires
        a <= b <= s@.len(),
        radix == 2 || radix == 10 || radix == 16,
        forall|i: int| a <= i < b ==> #[trigger] is_hex_char_or_underscore(s@[i]),
    ensures
        (match r {
            Some(v) => Some(v as int),
            None => None,
        }) == spec_int_digits(s@.subrange(a as int, b as int), radix as nat),
{
    let mut v: i64 = 0;
    let mut any = false;
    let mut i = a;
    while i < b
        invariant
            a <= i <= b <= s@.len(),
            radix == 2 || radix == 10 || radix == 16,
            forall|j: int| a <= j < b ==> #[trigger] is_hex_char_or_underscore(s@[j]),
            v as int == radix_value(strip_underscores(s@.subrange(a as int, i as int)), radix as nat),
            any == (strip_underscores(s@.subrange(a as int, i as int)).len() > 0),
            0 <= v,
        decreases b - i,
    {
        let c = s[i];
        proof {
            assert(s@.subrange(a as int, i + 1) =~= s@.subrange(a as int, i as int).push(c));
            lemma_strip_push(s@.subrange(a as int, i as int), c);
        }
        if c != '_' {
            assert(is_hex_char_or_underscore(s@[i as int]));
            let d = hex_digit_of(c) as i64;
            let ghost pre = strip_underscores(s@.subrange(a as int, i as int));
            proof {
                assert(pre.push(c).drop_last() =~= pre);
                assert(s@.subrange(a as int, b as int).subrange(0, i + 1 - a) =~= s@.subrange(a as int, i + 1));
                assert(strip_underscores(s@.subrange(a as int, i + 1)) == pre.push(c));
                assert(radix_value(pre.push(c), radix as nat) == radix_value(pre, radix as nat) * radix + hex_digit_value(c));
            }
            match v.checked_mul(radix as i64) {
                Some(m) => match m.checked_add(d) {
                    Some(w) => {
                        v = w;
                    },
                    None => {
                        proof {
                            lemma_overflow_sticks(s@.subrange(a as int, b as int), (i + 1 - a) as int, radix as nat);
                        }
                        return None;
                    },
                },
                None => {
                    proof {
                        assert(v * radix + d > i64::MAX) by (nonlinear_arith)
                            requires v * radix > i64::MAX, d >= 0;
                        lemma_overflow_sticks(s@.subrange(a as int, b as int), (i + 1 - a) as int, radix as nat);
                    }
                    return None;
                },
            }
            any = true;
        }
        i = i + 1;
    }
    proof {
        assert(s@.subrange(a as int, i as int) =~= s@.subrange(a as int, b as int));
    }
    if any {
        Some(v)
    } else {
        None
    }
}

proof fn lemma_overflow_sticks(t: Seq<char>, i: int, radix: nat)
    requires
        0 <= i <= t.len(),
        radix >= 1,
        radix_value(strip_underscores(t.subrange(0, i)), radix) > i64::MAX,
    ensures
        !(radix_value(strip_underscores(t), radix) <= i64::MAX),
{
    let u = lemma_strip_prefix(t, i);
    lemma_radix_value_mono(strip_underscores(t.subrange(0, i)), u, radix);
}

pub open spec fn is_hex_char_or_underscore(c: char) -> bool {
    crate::text::is_hex_digit(c) || c == '_'
}


proof fn lemma_classes_hex(s: Seq<char>, a: int, b: int, cls: CharClass)
    requires
        maximal_run(s, a, b, cls),
        cls == CharClass::HexOrUnderscore || cls == CharClass::BinOrUnderscore || cls
            == CharClass::DigitOrUnderscore,
    ensures
        forall|i: int| a <= i < b ==> #[trigger] is_hex_char_or_underscore(s[i]),
{
    assert forall|i: int| a <= i < b implies #[trigger] is_hex_char_or_underscore(s[i]) by {
        assert(in_class(s[i], cls));
    }
}

/// Parse the unsigned part of an integer at `p`: hex, then binary, then decimal.
fn unsigned_int(s: &[char], p: usize) -> (r: Option<(i64, usize)>)
    requires
        p <= s@.len(),
    ensures
        (match r {
            Some((v, e)) => Some((v as int, e as int)),
            None => None,
        }) == spec_unsigned_int(s@, p as int),
        r matches Some((v, e)) ==> p < e <= s@.len() && v >= 0,
{
    let n = s.len();
    proof {
        lemma_run_end(s@, p as int, CharClass::DigitOrUnderscore);
        if p + 2 <= s@.len() {
            lemma_run_end(s@, p + 2, CharClass::HexOrUnderscore);
            lemma_run_end(s@, p + 2, CharClass::BinOrUnderscore);
        }
    }
    if n - p >= 2 && s[p] == '0' && (s[p + 1] == 'x' || s[p + 1] == 'X') {
        let e = take_while(s, p + 2, CharClass::HexOrUnderscore);
        if e > p + 2 {
            proof {
                lemma_classes_hex(s@, p + 2, e as int, CharClass::HexOrUnderscore);
            }
            if let Some(v) = parse_int_no_alloc(s, p + 2, e, 16) {
                return Some((v, e));
            }
        }
    }
    if n - p >= 2 && s[p] == '0' && (s[p + 1] == 'b' || s[p + 1] == 'B') {
        let e = take_while(s, p + 2, CharClass::BinOrUnderscore);
        if e > p + 2 {
            proof {
                lemma_classes_hex(s@, p + 2, e as int, CharClass::BinOrUnderscore);
            }
            if let Some(v) = parse_int_no_alloc(s, p + 2, e, 2) {
                return Some((v, e));
            }
        }
    }
    let e = take_while(s, p, CharClass::DigitOrUnderscore);
    if e > p {
        proof {
            lemma_classes_hex(s@, p as int, e as int, CharClass::DigitOrUnderscore);
        }
        if let Some(v) = parse_int_no_alloc(s, p, e, 10) {
            return Some((v, e));
        }
    }
    None
}

/// Parse an Ion integer: decimal, hex, or binary, with an optional `-`.
pub fn ion_integer(s: &[char], pos: usize) -> (r: Result<(IonNumber, usize), ParseError>)
    requires
        pos <= s@.len(),
    ensures
        number_result(
            r,
            match spec_ion_integer(s@, pos as int) {
                Some((v, e)) => Some((NumberShape::Integer(v), e)),
                None => None,
            },
        ),
        r matches Ok((v, p)) ==> pos < p <= s@.len(),
{
    let _len = s.len();
    let neg = starts_with_char(s, pos, '-');
    let p = if neg {
        pos + 1
    } else {
        pos
    };
    match unsigned_int(s, p) {
        Some((v, e)) => {
            if e < s.len() && (s[e] == '.' || s[e] == 'e' || s[e] == 'E' || s[e] == 'd' || s[e]
                == 'D') {
                return Err(ParseError::Backtrack);
            }
            let value = if neg {
                -v
            } else {
                v
            };
            Ok((IonNumber::Integer(value), e))
        },
        None => Err(ParseError::Backtrack),
    }
}

/// End of the mantissa `['-'] [0-9_]+ '.' [0-9_]*` at `pos`.
fn mantissa_end(s: &[char], pos: usize) -> (r: Option<usize>)
    requires
        pos <= s@.len(),
    ensures
        (match r {
            Some(e) => Some(e as int),
            None => None,
        }) == spec_mantissa_end(s@, pos as int),
        r matches Some(e) ==> pos < e <= s@.len(),
{
    let _len = s.len();
    let p = if starts_with_char(s, pos, '-') {
        pos + 1
    } else {
        pos
    };
    let w = take_while(s, p, CharClass::DigitOrUnderscore);
    if w > p && starts_with_char(s, w, '.') {
        let e = take_while(s, w + 1, CharClass::DigitOrUnderscore);
        Some(e)
    } else {
        None
    }
}

/// End of `['+' | '-'] [0-9]+` at `p`.
fn exponent_end(s: &[char], p: usize) -> (r: Option<usize>)
    requires
        p <= s@.len(),
    ensures
        (match r {
            Some(e) => Some(e as int),
            None => None,
        }) == spec_exponent_end(s@, p as int),
        r matches Some(e) ==> p < e <= s@.len(),
{
    let _len = s.len();
    let q = if starts_with_char(s, p, '+') || starts_with_char(s, p, '-') {
        p + 1
    } else {
        p
    };
    let e = take_while(s, q, CharClass::Digit);
    if e > q {
        Some(e)
    } else {
        None
    }
}

/// `s[a..b]` with `_` dropped.
fn strip_range(s: &[char], a: usize, b: usize) -> (r: String)
    requires
        a <= b <= s@.len(),
    ensures
        r@ == strip_underscores(s@.subrange(a as int, b as int)),
{
    let mut out = String::new();
    let mut i = a;
    while i < b
        invariant
            a <= i <= b <= s@.len(),
            out@ == strip_underscores(s@.subrange(a as int, i as int)),
        decreases b - i,
    {
        let c = s[i];
        proof {
            assert(s@.subrange(a as int, i + 1) =~= s@.subrange(a as int, i as int).push(c));
            lemma_strip_push(s@.subrange(a as int, i as int), c);
        }
        if c != '_' {
            push_char(&mut out, c);
        }
        i = i + 1;
    }
    out
}

/// Special float values: `nan`, `+inf`, `-inf`.
fn special_float(s: &[char], pos: usize) -> (r: Result<(IonNumber, usize), ParseError>)
    requires
        pos <= s@.len(),
    ensures
        number_result(r, spec_special_float(s@, pos as int)),
{
    proof {
        reveal_strlit("nan");
        reveal_strlit("+inf");
        reveal_strlit("-inf");
        assert("nan"@ =~= seq!['n', 'a', 'n']);
        assert("+inf"@ =~= seq!['+', 'i', 'n', 'f']);
        assert("-inf"@ =~= seq!['-', 'i', 'n', 'f']);
    }
    if let Some(p) = lit(s, pos, "nan") {
        return Ok((IonNumber::Float(FloatLiteral::Nan), p));
    }
    if let Some(p) = lit(s, pos, "+inf") {
        return Ok((IonNumber::Float(FloatLiteral::PosInfinity), p));
    }
    if let Some(p) = lit(s, pos, "-inf") {
        return Ok((IonNumber::Float(FloatLiteral::NegInfinity), p));
    }
    Err(ParseError::Backtrack)
}

/// Parse an Ion float: `1.0e0`, `nan`, `+inf`, `-inf`.
///
/// A finite float is kept as its text with `_` dropped.
pub fn ion_float(s: &[char], pos: usize) -> (r: Result<(IonNumber, usize), ParseError>)
    requires
        pos <= s@.len(),
    ensures
        number_result(r, spec_ion_float(s@, pos as int)),
{
    let _len = s.len();
    if let Ok(r) = special_float(s, pos) {
        return Ok(r);
    }
    match mantissa_end(s, pos) {
        Some(m) => {
            if starts_with_char(s, m, 'e') || starts_with_char(s, m, 'E') {
                match exponent_end(s, m + 1) {
                    Some(e) => {
                        let text = strip_range(s, pos, e);
                        Ok((IonNumber::Float(FloatLiteral::Finite(text)), e))
                    },
                    None => Err(ParseError::Backtrack),
                }
            } else {
                Err(ParseError::Backtrack)
            }
        },
        None => Err(ParseError::Backtrack),
    }
}

/// The decimal reader's text for `s[a..b]`.
fn decimal_text_of(s: &[char], a: usize, b: usize) -> (r: String)
    requires
        a <= b <= s@.len(),
    ensures
        r@ == decimal_text(s@.subrange(a as int, b as int)),
{
    let ghost raw = s@.subrange(a as int, b as int);
    let mut out = String::new();
    let mut replaced = false;
    let mut i = a;
    while i < b
        invariant
            a <= i <= b <= s@.len(),
            raw == s@.subrange(a as int, b as int),
            out@ + exponent_text_from(raw, i - a, replaced) == exponent_text_from(raw, 0, false),
        decreases b - i,
    {
        let c = s[i];
        let ghost before = out@;
        if c == '_' {
        } else if !replaced && (c == 'd' || c == 'D') {
            push_char(&mut out, 'e');
            replaced = true;
            proof {
                assert(before.push('e') + exponent_text_from(raw, i + 1 - a, true) =~= before + (
                seq!['e'] + exponent_text_from(raw, i + 1 - a, true)));
            }
        } else {
            push_char(&mut out, c);
            proof {
                assert(before.push(c) + exponent_text_from(raw, i + 1 - a, replaced) =~= before + (
                seq![c] + exponent_text_from(raw, i + 1 - a, replaced)));
            }
        }
        i = i + 1;
    }
    proof {
        assert(out@ + Seq::<char>::empty() =~= out@);
    }
    let n = out.as_str().unicode_len();
    if n > 0 && out.as_str().get_char(n - 1) == '.' {
        push_char(&mut out, '0');
    }
    out
}

/// Parse an Ion decimal: `3.14`, `1.0d2`, `123.`.
pub fn ion_decimal(s: &[char], pos: usize) -> (r: Result<(IonNumber, usize), ParseError>)
    requires
        pos <= s@.len(),
    ensures
        number_result(r, spec_ion_decimal(s@, pos as int)),
{
    let _len = s.len();
    let e = match mantissa_end(s, pos) {
        Some(m) => {
            if starts_with_char(s, m, 'e') || starts_with_char(s, m, 'E') {
                return Err(ParseError::Backtrack);
            }
            if starts_with_char(s, m, 'd') || starts_with_char(s, m, 'D') {
                match exponent_end(s, m + 1) {
                    Some(e) => e,
                    None => {
                        return Err(ParseError::Backtrack);
                    },
                }
            } else {
                m
            }
        },
        None => {
            return Err(ParseError::Backtrack);
        },
    };
    let text = decimal_text_of(s, pos, e);
    match parse_decimal_text(text.as_str()) {
        Some(d) => Ok((IonNumber::Decimal(d), e)),
        None => Err(ParseError::Backtrack),
    }
}

/// Parse any Ion number: float first, then decimal, then integer.
pub fn ion_number(s: &[char], pos: usize) -> (r: Result<(IonNumber, usize), ParseError>)
    requires
        pos <= s@.len(),
    ensures
        number_result(r, spec_ion_number(s@, pos as int)),
        r matches Ok((v, p)) ==> pos < p <= s@.len(),
{
    proof {
        lemma_number_advances(s@, pos as int);
    }
    if let Ok(r) = ion_float(s, pos) {
        return Ok(r);
    }
    if let Ok(r) = ion_decimal(s, pos) {
        return Ok(r);
    }
    ion_integer(s, pos)
}

pub proof fn lemma_number_advances(s: Seq<char>, pos: int)
    requires
        0 <= pos <= s.len(),
    ensures
        spec_ion_number(s, pos) matches Some((n, e)) ==> pos < e <= s.len(),
{
    let p = if char_at(s, pos, '-') { pos + 1 } else { pos };
    lemma_run_end(s, p, CharClass::DigitOrUnderscore);
    let w = run_end(s, p, CharClass::DigitOrUnderscore);
    if w < s.len() {
        lemma_run_end(s, w + 1, CharClass::DigitOrUnderscore);
        let m = run_end(s, w + 1, CharClass::DigitOrUnderscore);
        if m + 1 < s.len() {
            lemma_run_end(s, m + 1, CharClass::Digit);
            lemma_run_end(s, m + 2, CharClass::Digit);
        }
    }
    if p + 2 <= s.len() {
        lemma_run_end(s, p + 2, CharClass::HexOrUnderscore);
        lemma_run_end(s, p + 2, CharClass::BinOrUnderscore);
    }
}

} // verus!
