//! Character-level scanning over a query held as a sequence of chars.
//!
//! Every scanner takes the whole input `s` and a position `pos`, and on
//! success returns the position just past what it recognised. A scanner
//! never moves backwards and never reads past the end of `s`.
use vstd::prelude::*;

verus! {

/// Character classes recognised by [`take_while`].
#[derive(Clone, Copy, PartialEq, Eq, Debug)]
pub enum CharClass {
    /// Blank space between tokens: space, tab, carriage return, line feed.
    Space,
    /// ASCII letters, digits and `_`.
    Word,
    /// ASCII letters and `_`.
    IdentStart,
    /// ASCII digits.
    Digit,
    /// ASCII digits and `_`.
    DigitOrUnderscore,
    /// ASCII hexadecimal digits and `_`.
    HexOrUnderscore,
    /// `0`, `1` and `_`.
    BinOrUnderscore,
    /// Anything but `"`.
    NotDoubleQuote,
    /// Anything but `'`.
    NotSingleQuote,
    /// Anything but `"` and `\`.
    NotDoubleQuoteOrBackslash,
    /// Anything but `'` and `\`.
    NotSingleQuoteOrBackslash,
}

pub open spec fn is_space(c: char) -> bool {
    c == ' ' || c == '\t' || c == '\n' || c == '\r'
}

pub open spec fn is_upper(c: char) -> bool {
    'A' <= c && c <= 'Z'
}

pub open spec fn is_lower(c: char) -> bool {
    'a' <= c && c <= 'z'
}

pub open spec fn is_alpha(c: char) -> bool {
    is_upper(c) || is_lower(c)
}

pub open spec fn is_digit(c: char) -> bool {
    '0' <= c && c <= '9'
}

pub open spec fn is_hex_digit(c: char) -> bool {
    is_digit(c) || ('a' <= c && c <= 'f') || ('A' <= c && c <= 'F')
}

pub open spec fn is_word_char(c: char) -> bool {
    is_alpha(c) || is_digit(c) || c == '_'
}

pub open spec fn in_class(c: char, cls: CharClass) -> bool {
    match cls {
        CharClass::Space => is_space(c),
        CharClass::Word => is_word_char(c),
        CharClass::IdentStart => is_alpha(c) || c == '_',
        CharClass::Digit => is_digit(c),
        CharClass::DigitOrUnderscore => is_digit(c) || c == '_',
        CharClass::HexOrUnderscore => is_hex_digit(c) || c == '_',
        CharClass::BinOrUnderscore => c == '0' || c == '1' || c == '_',
        CharClass::NotDoubleQuote => c != '"',
        CharClass::NotSingleQuote => c != '\'',
        CharClass::NotDoubleQuoteOrBackslash => c != '"' && c != '\\',
        CharClass::NotSingleQuoteOrBackslash => c != '\'' && c != '\\',
    }
}

/// `s[a..b]` is a longest run of class `cls` starting at `a`.
pub open spec fn maximal_run(s: Seq<char>, a: int, b: int, cls: CharClass) -> bool {
    &&& 0 <= a <= b <= s.len()
    &&& forall|i: int| a <= i < b ==> #[trigger] in_class(s[i], cls)
    &&& (b == s.len() || !in_class(s[b], cls))
}

/// ASCII case-insensitive equality of two chars.
pub open spec fn eq_ignore_case(a: char, b: char) -> bool {
    ||| a == b
    ||| is_upper(a) && a as int + 32 == b as int
    ||| is_upper(b) && b as int + 32 == a as int
}

/// `s[pos..]` starts with `k`, ignoring ASCII case.
pub open spec fn caseless_at(s: Seq<char>, pos: int, k: Seq<char>) -> bool {
    &&& 0 <= pos
    &&& pos + k.len() <= s.len()
    &&& forall|i: int| 0 <= i < k.len() ==> #[trigger] eq_ignore_case(s[pos + i], k[i])
}

/// No word character follows position `p`.
pub open spec fn word_boundary(s: Seq<char>, p: int) -> bool {
    p >= s.len() || !is_word_char(s[p])
}

/// The keyword `k` stands at `pos`, in any ASCII case, and is not the prefix of a longer word.
pub open spec fn kw_at(s: Seq<char>, pos: int, k: Seq<char>) -> bool {
    caseless_at(s, pos, k) && word_boundary(s, pos + k.len())
}

/// `s[pos..]` starts with exactly `l`.
pub open spec fn lit_at(s: Seq<char>, pos: int, l: Seq<char>) -> bool {
    0 <= pos && pos + l.len() <= s.len() && s.subrange(pos, pos + l.len()) == l
}

/// The char at `pos` is `c`.
pub open spec fn char_at(s: Seq<char>, pos: int, c: char) -> bool {
    0 <= pos < s.len() && s[pos] == c
}

/// End of the longest run of class `cls` that starts at `a`.
pub open spec fn run_end(s: Seq<char>, a: int, cls: CharClass) -> int
    decreases s.len() - a,
{
    if a < 0 || a >= s.len() || !in_class(s[a], cls) {
        a
    } else {
        run_end(s, a + 1, cls)
    }
}

pub proof fn lemma_run_end(s: Seq<char>, a: int, cls: CharClass)
    requires
        0 <= a <= s.len(),
    ensures
        maximal_run(s, a, run_end(s, a, cls), cls),
    decreases s.len() - a,
{
    if a < s.len() && in_class(s[a], cls) {
        lemma_run_end(s, a + 1, cls);
        assert(in_class(s[a], cls));
    }
}

/// Position after the blanks that start at `pos`.
pub open spec fn skip_space(s: Seq<char>, pos: int) -> int
    decreases s.len() - pos,
{
    if pos < 0 || pos >= s.len() || !is_space(s[pos]) {
        pos
    } else {
        skip_space(s, pos + 1)
    }
}

pub proof fn lemma_skip_space(s: Seq<char>, pos: int)
    requires
        0 <= pos <= s.len(),
    ensures
        maximal_run(s, pos, skip_space(s, pos), CharClass::Space),
    decreases s.len() - pos,
{
    if pos < s.len() && is_space(s[pos]) {
        lemma_skip_space(s, pos + 1);
        assert(in_class(s[pos], CharClass::Space));
    }
}

/// Where the keyword `k` stands at `p`, its first char stands there, in
/// some case.
pub proof fn lemma_kw_first(s: Seq<char>, p: int, k: Seq<char>)
    requires
        kw_at(s, p, k),
        k.len() > 0,
    ensures
        0 <= p < s.len(),
        eq_ignore_case(s[p], k[0]),
{
    assert(eq_ignore_case(s[p + 0], k[0]));
}

/// A one-char text stands at `pos` exactly when that char does.
pub proof fn lemma_lit_char(s: Seq<char>, pos: int, c: char)
    ensures
        lit_at(s, pos, seq![c]) <==> char_at(s, pos, c),
{
    if char_at(s, pos, c) {
        assert(s.subrange(pos, pos + 1) =~= seq![c]);
    }
    if lit_at(s, pos, seq![c]) {
        assert(s.subrange(pos, pos + 1)[0] == s[pos]);
    }
}

pub proof fn lemma_skip_space_idem(s: Seq<char>, pos: int)
    requires
        0 <= pos <= s.len(),
    ensures
        skip_space(s, skip_space(s, pos)) == skip_space(s, pos),
        pos <= skip_space(s, pos) <= s.len(),
    decreases s.len() - pos,
{
    if pos < s.len() && is_space(s[pos]) {
        lemma_skip_space_idem(s, pos + 1);
    }
}

pub fn class_contains(c: char, cls: CharClass) -> (r: bool)
    ensures
        r == in_class(c, cls),
{
    match cls {
        CharClass::Space => c == ' ' || c == '\t' || c == '\n' || c == '\r',
        CharClass::Word => is_word(c),
        CharClass::IdentStart => ('a' <= c && c <= 'z') || ('A' <= c && c <= 'Z') || c == '_',
        CharClass::Digit => '0' <= c && c <= '9',
        CharClass::DigitOrUnderscore => ('0' <= c && c <= '9') || c == '_',
        CharClass::HexOrUnderscore => ('0' <= c && c <= '9') || ('a' <= c && c <= 'f') || (
        'A' <= c && c <= 'F') || c == '_',
        CharClass::BinOrUnderscore => c == '0' || c == '1' || c == '_',
        CharClass::NotDoubleQuote => c != '"',
        CharClass::NotSingleQuote => c != '\'',
        CharClass::NotDoubleQuoteOrBackslash => c != '"' && c != '\\',
        CharClass::NotSingleQuoteOrBackslash => c != '\'' && c != '\\',
    }
}

pub fn is_word(c: char) -> (r: bool)
    ensures
        r == is_word_char(c),
{
    ('a' <= c && c <= 'z') || ('A' <= c && c <= 'Z') || ('0' <= c && c <= '9') || c == '_'
}

pub fn is_ascii_digit(c: char) -> (r: bool)
    ensures
        r == is_digit(c),
{
    '0' <= c && c <= '9'
}

/// Consume the longest run of chars of class `cls` starting at `pos`.
pub fn take_while(s: &[char], pos: usize, cls: CharClass) -> (r: usize)
    requires
        pos <= s@.len(),
    ensures
        maximal_run(s@, pos as int, r as int, cls),
        r == run_end(s@, pos as int, cls),
{
    let mut i = pos;
    while i < s.len() && class_contains(s[i], cls)
        invariant
            pos <= i <= s@.len(),
            forall|j: int| pos <= j < i ==> #[trigger] in_class(s@[j], cls),
        decreases s@.len() - i,
    {
        i = i + 1;
    }
    proof {
        lemma_run_end(s@, pos as int, cls);
        lemma_maximal_run_unique(s@, pos as int, i as int, run_end(s@, pos as int, cls), cls);
    }
    i
}

/// Optional whitespace: skip any number of blanks.
pub fn ws0(s: &[char], pos: usize) -> (r: usize)
    requires
        pos <= s@.len(),
    ensures
        r == skip_space(s@, pos as int),
        maximal_run(s@, pos as int, r as int, CharClass::Space),
{
    proof {
        lemma_skip_space(s@, pos as int);
    }
    let r = take_while(s, pos, CharClass::Space);
    proof {
        lemma_maximal_run_unique(s@, pos as int, r as int, skip_space(s@, pos as int), CharClass::Space);
    }
    r
}

/// Mandatory whitespace: at least one blank, then any number more.
pub fn ws(s: &[char], pos: usize) -> (r: Option<usize>)
    requires
        pos <= s@.len(),
    ensures
        r is Some <==> (pos < s@.len() && is_space(s@[pos as int])),
        r matches Some(p) ==> p == skip_space(s@, pos as int) && pos < p <= s@.len(),
{
    if pos < s.len() && class_contains(s[pos], CharClass::Space) {
        let r = ws0(s, pos);
        Some(r)
    } else {
        None
    }
}

pub proof fn lemma_maximal_run_unique(s: Seq<char>, a: int, b1: int, b2: int, cls: CharClass)
    requires
        maximal_run(s, a, b1, cls),
        maximal_run(s, a, b2, cls),
    ensures
        b1 == b2,
{
    if b1 < b2 {
        assert(in_class(s[b1], cls));
    } else if b2 < b1 {
        assert(in_class(s[b2], cls));
    }
}

/// ASCII case-insensitive comparison of two chars.
pub fn chars_eq_ignore_case(a: char, b: char) -> (r: bool)
    ensures
        r == eq_ignore_case(a, b),
{
    if a == b {
        return true;
    }
    let ua = a as u32;
    let ub = b as u32;
    if 'A' <= a && a <= 'Z' && ua + 32 == ub {
        return true;
    }
    if 'A' <= b && b <= 'Z' && ub + 32 == ua {
        return true;
    }
    false
}

/// Case-insensitive prefix match of `k` at `pos` (no word-boundary check).
pub fn caseless(s: &[char], pos: usize, k: &str) -> (r: bool)
    requires
        pos <= s@.len(),
    ensures
        r == caseless_at(s@, pos as int, k@),
{
    let n = k.unicode_len();
    if n > s.len() - pos {
        return false;
    }
    let mut i: usize = 0;
    while i < n
        invariant
            n == k@.len(),
            pos + n <= s.len(),
            0 <= i <= n,
            forall|j: int| 0 <= j < i ==> #[trigger] eq_ignore_case(s@[pos + j], k@[j]),
        decreases n - i,
    {
        if !chars_eq_ignore_case(s[pos + i], k.get_char(i)) {
            return false;
        }
        i = i + 1;
    }
    true
}

/// Keywords match in any ASCII case: two inputs that differ only in the
/// case of their letters hold the same keywords at the same positions.
pub proof fn lemma_kw_case_insensitive(s1: Seq<char>, s2: Seq<char>, pos: int, k: Seq<char>)
    requires
        s1.len() == s2.len(),
        forall|i: int| 0 <= i < s1.len() ==> #[trigger] eq_ignore_case(s1[i], s2[i]),
    ensures
        kw_at(s1, pos, k) == kw_at(s2, pos, k),
{
    if 0 <= pos && pos + k.len() <= s1.len() {
        if caseless_at(s1, pos, k) {
            assert forall|i: int| 0 <= i < k.len() implies #[trigger] eq_ignore_case(s2[pos + i], k[i]) by {
                assert(eq_ignore_case(s1[pos + i], s2[pos + i]));
                assert(eq_ignore_case(s1[pos + i], k[i]));
            }
        }
        if caseless_at(s2, pos, k) {
            assert forall|i: int| 0 <= i < k.len() implies #[trigger] eq_ignore_case(s1[pos + i], k[i]) by {
                assert(eq_ignore_case(s1[pos + i], s2[pos + i]));
                assert(eq_ignore_case(s2[pos + i], k[i]));
            }
        }
        if pos + k.len() < s1.len() {
            assert(eq_ignore_case(s1[pos + k.len()], s2[pos + k.len()]));
        }
    }
}

/// Match a SQL keyword case-insensitively with word-boundary enforcement.
///
/// Matches `k` in any ASCII case only when the next char is not a letter,
/// digit or `_`, so `OR` never matches the start of `ORDER`. Consumes no
/// trailing whitespace.
pub fn kw(s: &[char], pos: usize, k: &str) -> (r: Option<usize>)
    requires
        pos <= s@.len(),
    ensures
        r is Some <==> kw_at(s@, pos as int, k@),
        r matches Some(p) ==> p == pos + k@.len(),
{
    if !caseless(s, pos, k) {
        return None;
    }
    assert(pos + k@.len() <= s.len());
    let end = pos + k.unicode_len();
    if end < s.len() && is_word(s[end]) {
        return None;
    }
    Some(end)
}

/// Match a single char.
pub fn ch(s: &[char], pos: usize, c: char) -> (r: Option<usize>)
    requires
        pos <= s@.len(),
    ensures
        r is Some <==> char_at(s@, pos as int, c),
        r matches Some(p) ==> p == pos + 1,
{
    if pos < s.len() && s[pos] == c {
        Some(pos + 1)
    } else {
        None
    }
}

/// Match an exact string.
pub fn lit(s: &[char], pos: usize, l: &str) -> (r: Option<usize>)
    requires
        pos <= s@.len(),
    ensures
        r is Some <==> lit_at(s@, pos as int, l@),
        r matches Some(p) ==> p == pos + l@.len(),
{
    let n = l.unicode_len();
    if n > s.len() - pos {
        return None;
    }
    let mut i: usize = 0;
    while i < n
        invariant
            n == l@.len(),
            pos + n <= s.len(),
            0 <= i <= n,
            forall|j: int| 0 <= j < i ==> s@[pos + j] == l@[j],
        decreases n - i,
    {
        if s[pos + i] != l.get_char(i) {
            proof {
                assert(s@.subrange(pos as int, pos + n)[i as int] != l@[i as int]);
            }
            return None;
        }
        i = i + 1;
    }
    proof {
        assert(s@.subrange(pos as int, pos + n) =~= l@);
    }
    Some(pos + n)
}

/// `s[pos..]` starts with char `c` (no consumption).
pub fn starts_with_char(s: &[char], pos: usize, c: char) -> (r: bool)
    requires
        pos <= s@.len(),
    ensures
        r == char_at(s@, pos as int, c),
{
    pos < s.len() && s[pos] == c
}

/// Append one char to a string.
///
/// Trusted: calls `String::push`, which std documents as appending the
/// given char to the end of the string.
#[verifier::external_body]
pub fn push_char(s: &mut String, c: char)
    ensures
        final(s)@ == old(s)@.push(c),
{
    s.push(c);
}

/// Append a whole `&str` to `out`.
pub fn append_str(out: &mut String, t: &str)
    ensures
        final(out)@ == old(out)@ + t@,
{
    out.append(t);
}

/// Append a whole `String` to `out`.
pub fn append_string(out: &mut String, t: &String)
    ensures
        final(out)@ == old(out)@ + t@,
{
    out.append(t.as_str());
}

/// Copy `s[a..b]` into a new string.
pub fn string_of(s: &[char], a: usize, b: usize) -> (r: String)
    requires
        a <= b <= s@.len(),
    ensures
        r@ == s@.subrange(a as int, b as int),
{
    let mut out = String::new();
    let mut i = a;
    while i < b
        invariant
            a <= i <= b <= s@.len(),
            out@ == s@.subrange(a as int, i as int),
        decreases b - i,
    {
        push_char(&mut out, s[i]);
        proof {
            assert(s@.subrange(a as int, i + 1) =~= s@.subrange(a as int, i as int).push(s@[i as int]));
        }
        i = i + 1;
    }
    out
}

/// Append `s[a..b]` to `out`.
pub fn push_range(out: &mut String, s: &[char], a: usize, b: usize)
    requires
        a <= b <= s@.len(),
    ensures
        final(out)@ == old(out)@ + s@.subrange(a as int, b as int),
{
    let mut i = a;
    while i < b
        invariant
            a <= i <= b <= s@.len(),
            out@ == old(out)@ + s@.subrange(a as int, i as int),
        decreases b - i,
    {
        push_char(out, s[i]);
        proof {
            assert(s@.subrange(a as int, i + 1) =~= s@.subrange(a as int, i as int).push(s@[i as int]));
        }
        i = i + 1;
    }
}

/// The chars of a string, in order.
pub fn chars_of(s: &str) -> (v: Vec<char>)
    ensures
        v@ == s@,
{
    let mut v = Vec::new();
    for c in it: s.chars()
        invariant
            v@ == it.seq().take(it.index() as int),
    {
        v.push(c);
    }
    v
}

/// A scanner position as an integer, if any.
pub open spec fn opt_pos(r: Option<usize>) -> Option<int> {
    match r {
        Some(p) => Some(p as int),
        None => None,
    }
}

/// The keyword `k` at `p` followed by at least one blank: the position
/// after those blanks.
pub open spec fn spec_kw_ws(s: Seq<char>, p: int, k: Seq<char>) -> Option<int> {
    let e = p + k.len();
    if kw_at(s, p, k) && e < s.len() && is_space(s[e]) {
        Some(skip_space(s, e))
    } else {
        None
    }
}

/// The keyword `k` at `p`, then optional blanks: the position after them.
pub open spec fn spec_kw_ws0(s: Seq<char>, p: int, k: Seq<char>) -> Option<int> {
    if kw_at(s, p, k) {
        Some(skip_space(s, p + k.len()))
    } else {
        None
    }
}

/// Keyword `k`, then at least one blank.
pub fn kw_ws(s: &[char], pos: usize, k: &str) -> (r: Option<usize>)
    requires
        pos <= s@.len(),
    ensures
        opt_pos(r) == spec_kw_ws(s@, pos as int, k@),
        r matches Some(p) ==> pos + k@.len() < p <= s@.len(),
{
    match kw(s, pos, k) {
        Some(e) => match ws(s, e) {
            Some(p) => {
                proof {
                    lemma_skip_space_idem(s@, e as int);
                }
                Some(p)
            },
            None => None,
        },
        None => None,
    }
}

/// Keyword `k`, then optional blanks.
pub fn kw_ws0(s: &[char], pos: usize, k: &str) -> (r: Option<usize>)
    requires
        pos <= s@.len(),
    ensures
        opt_pos(r) == spec_kw_ws0(s@, pos as int, k@),
        r matches Some(p) ==> pos + k@.len() <= p <= s@.len(),
{
    match kw(s, pos, k) {
        Some(e) => {
            proof {
                lemma_skip_space_idem(s@, e as int);
            }
            Some(ws0(s, e))
        },
        None => None,
    }
}

} // verus!
