//! `TO_STRING(timestamp, pattern)`: a date-time formatted by a PartiQL
//! pattern such as `yyyy-MM-dd'T'HH:mm:ss`.
//!
//! The PartiQL pattern is translated into a chrono strftime pattern,
//! which chrono then applies to the date-time's fields.
use crate::eval::expr::{arity_error, is_arity_error, BindError};
use crate::text::{append_str, chars_of, lit, push_char};
use crate::value::{Date, DateTime, Time, Value};
use std::fmt::Write;
use vstd::prelude::*;

verus! {

/// `p[i..]` starts with `w`.
pub open spec fn starts(p: Seq<char>, i: int, w: Seq<char>) -> bool {
    0 <= i && i + w.len() <= p.len() && p.subrange(i, i + w.len()) == w
}

/// Number of consecutive `c` chars from `i`.
pub open spec fn run_len(p: Seq<char>, i: int, c: char) -> nat
    decreases p.len() - i,
{
    if 0 <= i < p.len() && p[i] == c {
        1 + run_len(p, i + 1, c)
    } else {
        0
    }
}

/// First index at or after `i` holding a `'`, or the length of `p`.
pub open spec fn quote_end(p: Seq<char>, i: int) -> int
    decreases p.len() - i,
{
    if i >= p.len() {
        p.len() as int
    } else if p[i] == '\'' {
        i
    } else {
        quote_end(p, i + 1)
    }
}

pub open spec fn digit_char(d: nat) -> char {
    (48 + d) as char
}

/// Decimal notation of `n`, without leading zeros.
pub open spec fn decimal_digits(n: nat) -> Seq<char>
    decreases n,
{
    if n < 10 {
        seq![digit_char(n)]
    } else {
        decimal_digits(n / 10).push(digit_char(n % 10))
    }
}

pub open spec fn x5() -> Seq<char> {
    seq!['X', 'X', 'X', 'X', 'X']
}

pub open spec fn x4() -> Seq<char> {
    seq!['X', 'X', 'X', 'X']
}

pub open spec fn x3() -> Seq<char> {
    seq!['X', 'X', 'X']
}

pub open spec fn lx3() -> Seq<char> {
    seq!['x', 'x', 'x']
}

/// A char as literal strftime text: `%` is doubled, any other char
/// stands for itself.
pub open spec fn escape_char(c: char) -> Seq<char> {
    if c == '%' {
        seq!['%', '%']
    } else {
        seq![c]
    }
}

/// Text as literal strftime text.
pub open spec fn escape_text(t: Seq<char>) -> Seq<char>
    decreases t.len(),
{
    if t.len() == 0 {
        Seq::empty()
    } else {
        escape_text(t.drop_last()) + escape_char(t.last())
    }
}

/// First letter of the English name of month `m` (1 to 12).
pub open spec fn month_initial(m: int) -> char {
    if m == 1 || m == 6 || m == 7 {
        'J'
    } else if m == 2 {
        'F'
    } else if m == 3 || m == 5 {
        'M'
    } else if m == 4 || m == 8 {
        'A'
    } else if m == 9 {
        'S'
    } else if m == 10 {
        'O'
    } else if m == 11 {
        'N'
    } else {
        'D'
    }
}

pub open spec fn x2() -> Seq<char> {
    seq!['X', 'X']
}

pub open spec fn lx5() -> Seq<char> {
    seq!['x', 'x', 'x', 'x', 'x']
}

pub open spec fn lx4() -> Seq<char> {
    seq!['x', 'x', 'x', 'x']
}

pub open spec fn lx2() -> Seq<char> {
    seq!['x', 'x']
}

/// Rewrite of the pattern specifier that starts at `i` (`i` in bounds):
/// the chrono text it becomes and the index just past it.
///
/// Specifiers are tried longest first, in this order: quoted literal text,
/// runs of `S` (fraction digits), `XXXXX`, `XXXX`, `XXX`, `XX`, `xxxxx`,
/// `xxxx`, `xxx`, `xx` (the offset, with a colon for three and five
/// letters), `MMMMM` (the month's first letter, `initial`, where the month
/// is known; else its abbreviation), `MMMM`, `MMM`, `yyyy`, `MM`, `dd`,
/// `HH`, `hh`, `mm`, `ss`, `yy`, then the single letters
/// `y n M d H h m s a X x`. Literal text, quoted or not, is kept, with `%`
/// written `%%` as strftime asks.
pub open spec fn pattern_token(p: Seq<char>, i: int, initial: Option<char>) -> (Seq<char>, int) {
    if p[i] == '\'' {
        let j = quote_end(p, i + 1);
        (escape_text(p.subrange(i + 1, j)), if j < p.len() { j + 1 } else { j })
    } else if p[i] == 'S' {
        let k = run_len(p, i, 'S');
        (seq!['%'] + decimal_digits(k) + seq!['f'], i + k)
    } else if starts(p, i, x5()) {
        ("%:z"@, i + 5)
    } else if starts(p, i, x4()) {
        ("%z"@, i + 4)
    } else if starts(p, i, x3()) {
        ("%:z"@, i + 3)
    } else if starts(p, i, x2()) {
        ("%z"@, i + 2)
    } else if starts(p, i, lx5()) {
        ("%:z"@, i + 5)
    } else if starts(p, i, lx4()) {
        ("%z"@, i + 4)
    } else if starts(p, i, lx3()) {
        ("%:z"@, i + 3)
    } else if starts(p, i, lx2()) {
        ("%z"@, i + 2)
    } else if starts(p, i, seq!['M', 'M', 'M', 'M', 'M']) {
        (
            match initial {
                Some(c) => seq![c],
                None => "%b"@,
            },
            i + 5,
        )
    } else if starts(p, i, seq!['M', 'M', 'M', 'M']) {
        ("%B"@, i + 4)
    } else if starts(p, i, seq!['M', 'M', 'M']) {
        ("%b"@, i + 3)
    } else if starts(p, i, seq!['y', 'y', 'y', 'y']) {
        ("%Y"@, i + 4)
    } else if starts(p, i, seq!['M', 'M']) {
        ("%m"@, i + 2)
    } else if starts(p, i, seq!['d', 'd']) {
        ("%d"@, i + 2)
    } else if starts(p, i, seq!['H', 'H']) {
        ("%H"@, i + 2)
    } else if starts(p, i, seq!['h', 'h']) {
        ("%I"@, i + 2)
    } else if starts(p, i, seq!['m', 'm']) {
        ("%M"@, i + 2)
    } else if starts(p, i, seq!['s', 's']) {
        ("%S"@, i + 2)
    } else if starts(p, i, seq!['y', 'y']) {
        ("%y"@, i + 2)
    } else if p[i] == 'y' {
        ("%Y"@, i + 1)
    } else if p[i] == 'n' {
        ("%f"@, i + 1)
    } else if p[i] == 'M' {
        ("%-m"@, i + 1)
    } else if p[i] == 'd' {
        ("%-d"@, i + 1)
    } else if p[i] == 'H' {
        ("%-H"@, i + 1)
    } else if p[i] == 'h' {
        ("%-I"@, i + 1)
    } else if p[i] == 'm' {
        ("%-M"@, i + 1)
    } else if p[i] == 's' {
        ("%-S"@, i + 1)
    } else if p[i] == 'a' {
        ("%p"@, i + 1)
    } else if p[i] == 'X' || p[i] == 'x' {
        ("%z"@, i + 1)
    } else {
        (escape_char(p[i]), i + 1)
    }
}

pub proof fn lemma_run_len_bounds(p: Seq<char>, i: int, c: char)
    requires
        0 <= i,
    ensures
        i + run_len(p, i, c) <= if i <= p.len() { p.len() as int } else { i },
        forall|j: int| i <= j < i + run_len(p, i, c) ==> p[j] == c,
        i + run_len(p, i, c) < p.len() ==> p[i + run_len(p, i, c)] != c,
    decreases p.len() - i,
{
    if 0 <= i < p.len() && p[i] == c {
        lemma_run_len_bounds(p, i + 1, c);
    }
}

pub proof fn lemma_quote_end_bounds(p: Seq<char>, i: int)
    requires
        0 <= i,
    ensures
        i <= quote_end(p, i) || i > p.len(),
        quote_end(p, i) <= p.len(),
        forall|j: int| i <= j < quote_end(p, i) ==> p[j] != '\'',
        quote_end(p, i) < p.len() ==> p[quote_end(p, i)] == '\'',
    decreases p.len() - i,
{
    if i < p.len() && p[i] != '\'' {
        lemma_quote_end_bounds(p, i + 1);
    }
}

pub proof fn lemma_token_advances(p: Seq<char>, i: int, initial: Option<char>)
    requires
        0 <= i < p.len(),
    ensures
        i < pattern_token(p, i, initial).1 <= p.len(),
{
    if p[i] == '\'' {
        lemma_quote_end_bounds(p, i + 1);
    } else if p[i] == 'S' {
        lemma_run_len_bounds(p, i, 'S');
    }
}

/// The chrono pattern produced from `p[i..]`.
pub open spec fn convert_from(p: Seq<char>, i: int, initial: Option<char>) -> Seq<char>
    decreases p.len() - i,
{
    if i < 0 || i >= p.len() {
        Seq::empty()
    } else {
        let (out, next) = pattern_token(p, i, initial);
        proof {
            lemma_token_advances(p, i, initial);
        }
        out + convert_from(p, next, initial)
    }
}

/// The specifier table of `TO_STRING` patterns, wherever a specifier
/// stands in a pattern: `yyyy` the year (`%Y`), `MM` the month (`%m`),
/// `dd` the day (`%d`), `HH` the hour on the 24-hour clock (`%H`), `hh`
/// the hour on the 12-hour clock (`%I`), `mm` the minute (`%M`), `ss` the
/// second (`%S`); single `H` and `h` the same hours without padding
/// (`%-H`, `%-I`); `a` the AM/PM marker (`%p`). What follows is converted
/// on its own.
pub proof fn law_specifier_table(p: Seq<char>, i: int, initial: Option<char>)
    requires
        0 <= i < p.len(),
    ensures
        starts(p, i, seq!['y', 'y', 'y', 'y']) ==> convert_from(p, i, initial) == seq!['%', 'Y'] + convert_from(
            p,
            i + 4,
            initial,
        ),
        starts(p, i, seq!['M', 'M']) && !starts(p, i, seq!['M', 'M', 'M']) ==> convert_from(p, i, initial)
            == seq!['%', 'm'] + convert_from(p, i + 2, initial),
        starts(p, i, seq!['d', 'd']) ==> convert_from(p, i, initial) == seq!['%', 'd'] + convert_from(p, i + 2, initial),
        starts(p, i, seq!['H', 'H']) ==> convert_from(p, i, initial) == seq!['%', 'H'] + convert_from(p, i + 2, initial),
        starts(p, i, seq!['h', 'h']) ==> convert_from(p, i, initial) == seq!['%', 'I'] + convert_from(p, i + 2, initial),
        starts(p, i, seq!['m', 'm']) ==> convert_from(p, i, initial) == seq!['%', 'M'] + convert_from(p, i + 2, initial),
        starts(p, i, seq!['s', 's']) ==> convert_from(p, i, initial) == seq!['%', 'S'] + convert_from(p, i + 2, initial),
        p[i] == 'H' && !starts(p, i, seq!['H', 'H']) ==> convert_from(p, i, initial) == seq!['%', '-', 'H']
            + convert_from(p, i + 1, initial),
        p[i] == 'h' && !starts(p, i, seq!['h', 'h']) ==> convert_from(p, i, initial) == seq!['%', '-', 'I']
            + convert_from(p, i + 1, initial),
        p[i] == 'a' ==> convert_from(p, i, initial) == seq!['%', 'p'] + convert_from(p, i + 1, initial),
{
    reveal_strlit("%Y");
    reveal_strlit("%m");
    reveal_strlit("%d");
    reveal_strlit("%H");
    reveal_strlit("%I");
    reveal_strlit("%M");
    reveal_strlit("%S");
    reveal_strlit("%-H");
    reveal_strlit("%-I");
    reveal_strlit("%p");
    assert(p.subrange(i, i + 1)[0] == p[i]);
    if i + 2 <= p.len() {
        assert(p.subrange(i, i + 2)[0] == p[i]);
        assert(p.subrange(i, i + 2)[1] == p[i + 1]);
    }
    if i + 3 <= p.len() {
        assert(p.subrange(i, i + 3)[0] == p[i]);
        assert(p.subrange(i, i + 3)[1] == p[i + 1]);
        assert(p.subrange(i, i + 3)[2] == p[i + 2]);
    }
    if i + 4 <= p.len() {
        assert(p.subrange(i, i + 4)[0] == p[i]);
        assert(p.subrange(i, i + 4)[1] == p[i + 1]);
        assert(p.subrange(i, i + 4)[2] == p[i + 2]);
    }
    if i + 5 <= p.len() {
        assert(p.subrange(i, i + 5)[0] == p[i]);
        assert(p.subrange(i, i + 5)[1] == p[i + 1]);
        assert(p.subrange(i, i + 5)[2] == p[i + 2]);
    }
    if starts(p, i, seq!['M', 'M']) && !starts(p, i, seq!['M', 'M', 'M']) {
        assert(i + 3 > p.len() || p[i + 2] != 'M') by {
            if i + 3 <= p.len() && p[i + 2] == 'M' {
                assert(p.subrange(i, i + 3) =~= seq!['M', 'M', 'M']);
            }
        }
    }
}

/// A pattern that starts with `w` at `i` starts with each prefix of `w`.
proof fn lemma_starts_prefix(p: Seq<char>, i: int, w: Seq<char>, n: int)
    requires
        starts(p, i, w),
        0 <= n <= w.len(),
    ensures
        starts(p, i, w.subrange(0, n)),
{
    assert forall|k: int| 0 <= k < n implies p.subrange(i, i + n)[k] == w.subrange(0, n)[k] by {
        assert(p.subrange(i, i + w.len())[k] == w[k]);
    }
    assert(p.subrange(i, i + n) =~= w.subrange(0, n));
}

/// The rest of the specifier table: `MMMM` the month's name (`%B`),
/// `MMM` its abbreviation (`%b`), `yy` the year in two digits (`%y`);
/// single `y` the year (`%Y`), `M`, `d`, `m`, `s` the month, day, minute
/// and second without padding (`%-m`, `%-d`, `%-M`, `%-S`), `n` the
/// nanoseconds (`%f`); `XXX` the offset with a colon (`%:z`), `XX` and
/// `X` without (`%z`). A `%` is written `%%`; blanks and the separators
/// `: - / . , T` are kept as they are.
pub proof fn law_specifier_table_rest(p: Seq<char>, i: int, initial: Option<char>)
    requires
        0 <= i < p.len(),
    ensures
        starts(p, i, seq!['M', 'M', 'M', 'M']) && !starts(p, i, seq!['M', 'M', 'M', 'M', 'M']) ==> convert_from(
            p,
            i,
            initial,
        ) == seq!['%', 'B'] + convert_from(p, i + 4, initial),
        starts(p, i, seq!['M', 'M', 'M']) && !starts(p, i, seq!['M', 'M', 'M', 'M']) ==> convert_from(p, i, initial)
            == seq!['%', 'b'] + convert_from(p, i + 3, initial),
        starts(p, i, seq!['y', 'y']) && !starts(p, i, seq!['y', 'y', 'y', 'y']) ==> convert_from(p, i, initial)
            == seq!['%', 'y'] + convert_from(p, i + 2, initial),
        p[i] == 'y' && !starts(p, i, seq!['y', 'y']) ==> convert_from(p, i, initial) == seq!['%', 'Y']
            + convert_from(p, i + 1, initial),
        p[i] == 'M' && !starts(p, i, seq!['M', 'M']) ==> convert_from(p, i, initial) == seq!['%', '-', 'm']
            + convert_from(p, i + 1, initial),
        p[i] == 'd' && !starts(p, i, seq!['d', 'd']) ==> convert_from(p, i, initial) == seq!['%', '-', 'd']
            + convert_from(p, i + 1, initial),
        p[i] == 'm' && !starts(p, i, seq!['m', 'm']) ==> convert_from(p, i, initial) == seq!['%', '-', 'M']
            + convert_from(p, i + 1, initial),
        p[i] == 's' && !starts(p, i, seq!['s', 's']) ==> convert_from(p, i, initial) == seq!['%', '-', 'S']
            + convert_from(p, i + 1, initial),
        p[i] == 'n' ==> convert_from(p, i, initial) == seq!['%', 'f'] + convert_from(p, i + 1, initial),
        starts(p, i, seq!['X', 'X', 'X']) && !starts(p, i, seq!['X', 'X', 'X', 'X']) ==> convert_from(p, i, initial)
            == seq!['%', ':', 'z'] + convert_from(p, i + 3, initial),
        starts(p, i, seq!['X', 'X']) && !starts(p, i, seq!['X', 'X', 'X']) ==> convert_from(p, i, initial)
            == seq!['%', 'z'] + convert_from(p, i + 2, initial),
        p[i] == 'X' && !starts(p, i, seq!['X', 'X']) ==> convert_from(p, i, initial) == seq!['%', 'z']
            + convert_from(p, i + 1, initial),
        p[i] == '%' ==> convert_from(p, i, initial) == seq!['%', '%'] + convert_from(p, i + 1, initial),
        p[i] == ' ' || p[i] == ':' || p[i] == '-' || p[i] == '/' || p[i] == '.' || p[i] == ',' || p[i] == 'T'
            ==> convert_from(p, i, initial) == seq![p[i]] + convert_from(p, i + 1, initial),
{
    reveal_strlit("%B");
    reveal_strlit("%b");
    reveal_strlit("%y");
    reveal_strlit("%Y");
    reveal_strlit("%-m");
    reveal_strlit("%-d");
    reveal_strlit("%-M");
    reveal_strlit("%-S");
    reveal_strlit("%f");
    reveal_strlit("%:z");
    reveal_strlit("%z");
    let m5 = seq!['M', 'M', 'M', 'M', 'M'];
    let x5 = seq!['X', 'X', 'X', 'X', 'X'];
    let y4 = seq!['y', 'y', 'y', 'y'];
    if starts(p, i, m5) {
        lemma_starts_prefix(p, i, m5, 4);
        lemma_starts_prefix(p, i, m5, 3);
        assert(m5.subrange(0, 4) =~= seq!['M', 'M', 'M', 'M']);
        assert(m5.subrange(0, 3) =~= seq!['M', 'M', 'M']);
    }
    if starts(p, i, seq!['M', 'M', 'M', 'M']) {
        lemma_starts_prefix(p, i, seq!['M', 'M', 'M', 'M'], 3);
        assert(seq!['M', 'M', 'M', 'M'].subrange(0, 3) =~= seq!['M', 'M', 'M']);
    }
    if starts(p, i, seq!['M', 'M', 'M']) {
        lemma_starts_prefix(p, i, seq!['M', 'M', 'M'], 2);
        assert(seq!['M', 'M', 'M'].subrange(0, 2) =~= seq!['M', 'M']);
    }
    if starts(p, i, y4) {
        lemma_starts_prefix(p, i, y4, 2);
        assert(y4.subrange(0, 2) =~= seq!['y', 'y']);
    }
    if starts(p, i, x5) {
        lemma_starts_prefix(p, i, x5, 4);
        assert(x5.subrange(0, 4) =~= x4());
    }
    if starts(p, i, x4()) {
        lemma_starts_prefix(p, i, x4(), 3);
        assert(x4().subrange(0, 3) =~= x3());
    }
    if starts(p, i, x3()) {
        lemma_starts_prefix(p, i, x3(), 2);
        assert(x3().subrange(0, 2) =~= x2());
    }
    if starts(p, i, x2()) {
        lemma_starts_prefix(p, i, x2(), 1);
        assert(x2().subrange(0, 1) =~= seq!['X']);
    }
    assert(p.subrange(i, i + 1)[0] == p[i]);
    if i + 2 <= p.len() {
        assert(p.subrange(i, i + 2)[0] == p[i]);
        assert(p.subrange(i, i + 2)[1] == p[i + 1]);
    }
    if i + 3 <= p.len() {
        assert(p.subrange(i, i + 3)[0] == p[i]);
    }
    if i + 4 <= p.len() {
        assert(p.subrange(i, i + 4)[0] == p[i]);
    }
    if i + 5 <= p.len() {
        assert(p.subrange(i, i + 5)[0] == p[i]);
    }
    if p[i] == 'y' && !starts(p, i, seq!['y', 'y']) {
        if i + 2 <= p.len() && p[i + 1] == 'y' {
            assert(p.subrange(i, i + 2) =~= seq!['y', 'y']);
        }
    }
}

proof fn lemma_run_len_exact(p: Seq<char>, i: int, c: char, k: int)
    requires
        0 <= i,
        0 <= k,
        i + k <= p.len(),
        forall|m: int| i <= m < i + k ==> p[m] == c,
        i + k == p.len() || p[i + k] != c,
    ensures
        run_len(p, i, c) == k,
    decreases k,
{
    if k > 0 {
        lemma_run_len_exact(p, i + 1, c, k - 1);
    }
}

proof fn lemma_quote_end_exact(p: Seq<char>, i: int, j: int)
    requires
        0 <= i <= j < p.len(),
        p[j] == '\'',
        forall|m: int| i <= m < j ==> p[m] != '\'',
    ensures
        quote_end(p, i) == j,
    decreases j - i,
{
    if i < j {
        lemma_quote_end_exact(p, i + 1, j);
    }
}

proof fn lemma_escape_text_plain(t: Seq<char>)
    requires
        forall|m: int| 0 <= m < t.len() ==> t[m] != '%',
    ensures
        escape_text(t) == t,
    decreases t.len(),
{
    if t.len() > 0 {
        lemma_escape_text_plain(t.drop_last());
        assert(t.drop_last() + seq![t.last()] =~= t);
    }
}

/// Fraction digits, month letters and quoted text: a run of `k` `S`
/// (one to nine) is the fraction of a second in `k` digits (`%kf`);
/// `MMMMM` is the month's first letter where the month is known, and its
/// abbreviation (`%b`) where it is not; text between quotes is kept as it
/// is, without the quotes.
pub proof fn law_fraction_month_quote(p: Seq<char>, i: int, initial: Option<char>, k: int, j: int)
    requires
        0 <= i < p.len(),
    ensures
        1 <= k <= 9 && i + k <= p.len() && (forall|m: int| i <= m < i + k ==> p[m] == 'S') && (i + k == p.len()
            || p[i + k] != 'S') ==> convert_from(p, i, initial) == seq!['%', (48 + k) as char, 'f'] + convert_from(
            p,
            i + k,
            initial,
        ),
        starts(p, i, seq!['M', 'M', 'M', 'M', 'M']) ==> convert_from(p, i, initial) == match initial {
            Some(c) => seq![c],
            None => seq!['%', 'b'],
        } + convert_from(p, i + 5, initial),
        p[i] == '\'' && i < j < p.len() && p[j] == '\'' && (forall|m: int| i < m < j ==> p[m] != '\'' && p[m]
            != '%') ==> convert_from(p, i, initial) == p.subrange(i + 1, j) + convert_from(p, j + 1, initial),
{
    reveal_strlit("%b");
    assert(p.subrange(i, i + 1)[0] == p[i]);
    if i + 5 <= p.len() {
        assert(p.subrange(i, i + 5)[0] == p[i]);
    }
    if 1 <= k <= 9 && i + k <= p.len() && (forall|m: int| i <= m < i + k ==> p[m] == 'S') && (i + k == p.len()
        || p[i + k] != 'S') {
        lemma_run_len_exact(p, i, 'S', k);
        assert(p[i] == 'S');
        assert(decimal_digits(k as nat) == seq![digit_char(k as nat)]);
    }
    if p[i] == '\'' && i < j < p.len() && p[j] == '\'' && (forall|m: int| i < m < j ==> p[m] != '\'' && p[m]
        != '%') {
        lemma_quote_end_exact(p, i + 1, j);
        let t = p.subrange(i + 1, j);
        assert forall|m: int| 0 <= m < t.len() implies t[m] != '%' by {
            assert(t[m] == p[i + 1 + m]);
        }
        lemma_escape_text_plain(t);
    }
}

/// The first letters of the months' English names, January to December.
pub proof fn law_month_initials()
    ensures
        month_initial(1) == 'J' && month_initial(2) == 'F' && month_initial(3) == 'M' && month_initial(4) == 'A'
            && month_initial(5) == 'M' && month_initial(6) == 'J' && month_initial(7) == 'J' && month_initial(8)
            == 'A' && month_initial(9) == 'S' && month_initial(10) == 'O' && month_initial(11) == 'N'
            && month_initial(12) == 'D',
{
}

/// The chrono strftime pattern for a PartiQL `TO_STRING` pattern, with
/// `MMMMM` as the month's abbreviation (the month is not known).
pub open spec fn spec_convert_pattern(p: Seq<char>) -> Seq<char> {
    convert_from(p, 0, None)
}

/// Decimal notation of a count.
pub fn push_decimal(out: &mut String, n: usize)
    ensures
        final(out)@ == old(out)@ + decimal_digits(n as nat),
    decreases n,
{
    if n >= 10 {
        push_decimal(out, n / 10);
    }
    let d = (n % 10) as u8;
    let c = (48u8 + d) as char;
    proof {
        assert(c == digit_char((n % 10) as nat));
    }
    push_char(out, c);
}

/// Emit the rewrite of the specifier at `i` and return the index past it.
fn emit_token(p: &[char], i: usize, initial: Option<char>, out: &mut String) -> (next: usize)
    requires
        i < p@.len(),
    ensures
        final(out)@ == old(out)@ + pattern_token(p@, i as int, initial).0,
        next == pattern_token(p@, i as int, initial).1,
{
    proof {
        reveal_strlit("XXXXX");
        reveal_strlit("XXXX");
        reveal_strlit("XXX");
        reveal_strlit("XX");
        reveal_strlit("xxxxx");
        reveal_strlit("xxxx");
        reveal_strlit("xxx");
        reveal_strlit("xx");
        reveal_strlit("MMMMM");
        reveal_strlit("MMMM");
        reveal_strlit("MMM");
        reveal_strlit("yyyy");
        reveal_strlit("MM");
        reveal_strlit("dd");
        reveal_strlit("HH");
        reveal_strlit("hh");
        reveal_strlit("mm");
        reveal_strlit("ss");
        reveal_strlit("yy");
        assert("XXXXX"@ =~= seq!['X', 'X', 'X', 'X', 'X']);
        assert("XXXX"@ =~= seq!['X', 'X', 'X', 'X']);
        assert("XXX"@ =~= seq!['X', 'X', 'X']);
        assert("XX"@ =~= seq!['X', 'X']);
        assert("xxxxx"@ =~= seq!['x', 'x', 'x', 'x', 'x']);
        assert("xxxx"@ =~= seq!['x', 'x', 'x', 'x']);
        assert("xxx"@ =~= seq!['x', 'x', 'x']);
        assert("xx"@ =~= seq!['x', 'x']);
        assert("MMMMM"@ =~= seq!['M', 'M', 'M', 'M', 'M']);
        assert("MMMM"@ =~= seq!['M', 'M', 'M', 'M']);
        assert("MMM"@ =~= seq!['M', 'M', 'M']);
        assert("yyyy"@ =~= seq!['y', 'y', 'y', 'y']);
        assert("MM"@ =~= seq!['M', 'M']);
        assert("dd"@ =~= seq!['d', 'd']);
        assert("HH"@ =~= seq!['H', 'H']);
        assert("hh"@ =~= seq!['h', 'h']);
        assert("mm"@ =~= seq!['m', 'm']);
        assert("ss"@ =~= seq!['s', 's']);
        assert("yy"@ =~= seq!['y', 'y']);
    }
    let n = p.len();
    let c = p[i];
    if c == '\'' {
        let mut j = i + 1;
        proof {
            assert(p@.subrange(i + 1, i + 1) =~= Seq::<char>::empty());
            assert(old(out)@ + escape_text(Seq::<char>::empty()) =~= old(out)@);
        }
        while j < n && p[j] != '\''
            invariant
                i + 1 <= j <= n == p@.len(),
                out@ == old(out)@ + escape_text(p@.subrange(i + 1, j as int)),
                forall|k: int| i + 1 <= k < j ==> p@[k] != '\'',
            decreases n - j,
        {
            let ghost before = out@;
            emit_literal(out, p[j]);
            proof {
                assert(p@.subrange(i + 1, j + 1).drop_last() =~= p@.subrange(i + 1, j as int));
                assert(out@ =~= old(out)@ + escape_text(p@.subrange(i + 1, j + 1)));
            }
            j = j + 1;
        }
        proof {
            lemma_quote_end_unique(p@, i + 1, j as int);
        }
        if j < n {
            return j + 1;
        }
        return j;
    }
    if c == 'S' {
        let mut j = i;
        while j < n && p[j] == 'S'
            invariant
                i <= j <= n == p@.len(),
                forall|k: int| i <= k < j ==> p@[k] == 'S',
            decreases n - j,
        {
            j = j + 1;
        }
        proof {
            lemma_run_len_unique(p@, i as int, j as int, 'S');
        }
        push_char(out, '%');
        push_decimal(out, j - i);
        push_char(out, 'f');
        proof {
            assert(old(out)@.push('%') + decimal_digits((j - i) as nat) + seq!['f']
                =~= old(out)@ + (seq!['%'] + decimal_digits((j - i) as nat) + seq!['f']));
        }
        return j;
    }
    if lit(p, i, "XXXXX").is_some() {
        append_str(out, "%:z");
        return i + 5;
    }
    if lit(p, i, "XXXX").is_some() {
        append_str(out, "%z");
        return i + 4;
    }
    if lit(p, i, "XXX").is_some() {
        append_str(out, "%:z");
        return i + 3;
    }
    if lit(p, i, "XX").is_some() {
        append_str(out, "%z");
        return i + 2;
    }
    if lit(p, i, "xxxxx").is_some() {
        append_str(out, "%:z");
        return i + 5;
    }
    if lit(p, i, "xxxx").is_some() {
        append_str(out, "%z");
        return i + 4;
    }
    if lit(p, i, "xxx").is_some() {
        append_str(out, "%:z");
        return i + 3;
    }
    if lit(p, i, "xx").is_some() {
        append_str(out, "%z");
        return i + 2;
    }
    if lit(p, i, "MMMMM").is_some() {
        match initial {
            Some(c) => {
                push_char(out, c);
                proof {
                    assert(old(out)@.push(c) =~= old(out)@ + seq![c]);
                }
            },
            None => append_str(out, "%b"),
        }
        return i + 5;
    }
    if lit(p, i, "MMMM").is_some() {
        append_str(out, "%B");
        return i + 4;
    }
    if lit(p, i, "MMM").is_some() {
        append_str(out, "%b");
        return i + 3;
    }
    if lit(p, i, "yyyy").is_some() {
        append_str(out, "%Y");
        return i + 4;
    }
    if lit(p, i, "MM").is_some() {
        append_str(out, "%m");
        return i + 2;
    }
    if lit(p, i, "dd").is_some() {
        append_str(out, "%d");
        return i + 2;
    }
    if lit(p, i, "HH").is_some() {
        append_str(out, "%H");
        return i + 2;
    }
    if lit(p, i, "hh").is_some() {
        append_str(out, "%I");
        return i + 2;
    }
    if lit(p, i, "mm").is_some() {
        append_str(out, "%M");
        return i + 2;
    }
    if lit(p, i, "ss").is_some() {
        append_str(out, "%S");
        return i + 2;
    }
    if lit(p, i, "yy").is_some() {
        append_str(out, "%y");
        return i + 2;
    }
    if c == 'y' {
        append_str(out, "%Y");
    } else if c == 'n' {
        append_str(out, "%f");
    } else if c == 'M' {
        append_str(out, "%-m");
    } else if c == 'd' {
        append_str(out, "%-d");
    } else if c == 'H' {
        append_str(out, "%-H");
    } else if c == 'h' {
        append_str(out, "%-I");
    } else if c == 'm' {
        append_str(out, "%-M");
    } else if c == 's' {
        append_str(out, "%-S");
    } else if c == 'a' {
        append_str(out, "%p");
    } else if c == 'X' || c == 'x' {
        append_str(out, "%z");
    } else {
        emit_literal(out, c);
    }
    i + 1
}

/// Write `c` as literal strftime text.
fn emit_literal(out: &mut String, c: char)
    ensures
        final(out)@ == old(out)@ + escape_char(c),
{
    if c == '%' {
        append_str(out, "%%");
        proof {
            reveal_strlit("%%");
            assert("%%"@ =~= seq!['%', '%']);
        }
    } else {
        push_char(out, c);
        proof {
            assert(old(out)@.push(c) =~= old(out)@ + seq![c]);
        }
    }
}

proof fn lemma_quote_end_unique(p: Seq<char>, i: int, j: int)
    requires
        0 <= i <= j <= p.len(),
        forall|k: int| i <= k < j ==> p[k] != '\'',
        j == p.len() || p[j] == '\'',
    ensures
        quote_end(p, i) == j,
    decreases j - i,
{
    if i < j {
        lemma_quote_end_unique(p, i + 1, j);
    }
}

proof fn lemma_run_len_unique(p: Seq<char>, i: int, j: int, c: char)
    requires
        0 <= i <= j <= p.len(),
        forall|k: int| i <= k < j ==> p[k] == c,
        j == p.len() || p[j] != c,
    ensures
        run_len(p, i, c) == j - i,
    decreases j - i,
{
    if i < j {
        lemma_run_len_unique(p, i + 1, j, c);
    }
}

/// Convert a PartiQL `TO_STRING` pattern to a chrono strftime pattern.
///
/// Quoted text (`'T'`) is copied without its quotes; `S…S` becomes `%Nf`
/// with N the number of `S`; every other recognised specifier maps to its
/// chrono counterpart; other chars are copied, `%` as `%%`. `MMMMM`, the
/// month's first letter, needs a month, which a pattern alone does not
/// give: it becomes the abbreviation `%b`.
pub fn convert_partiql_pattern_to_chrono(pattern: &str) -> (r: String)
    ensures
        r@ == spec_convert_pattern(pattern@),
{
    convert_pattern_with_initial(pattern, None)
}

/// The conversion with `MMMMM` written as `initial`, the first letter of
/// the month of the value being formatted, where there is one.
pub fn convert_pattern_with_initial(pattern: &str, initial: Option<char>) -> (r: String)
    ensures
        r@ == convert_from(pattern@, 0, initial),
{
    let chars = chars_of(pattern);
    let p = chars.as_slice();
    let mut result = String::new();
    let mut i: usize = 0;
    while i < p.len()
        invariant
            p@ == pattern@,
            i <= p@.len(),
            result@ + convert_from(p@, i as int, initial) == convert_from(p@, 0, initial),
        decreases p@.len() - i,
    {
        let ghost before = result@;
        let next = emit_token(p, i, initial, &mut result);
        proof {
            lemma_token_advances(p@, i as int, initial);
            assert(convert_from(p@, i as int, initial) == pattern_token(p@, i as int, initial).0
                + convert_from(p@, next as int, initial));
            assert(result@ + convert_from(p@, next as int, initial) =~= before + convert_from(
                p@,
                i as int,
                initial,
            ));
        }
        i = next;
    }
    proof {
        assert(result@ + convert_from(p@, i as int, initial) =~= result@);
    }
    result
}

/// First letter of the English name of month `m`.
pub fn month_initial_of(m: u8) -> (r: char)
    ensures
        r == month_initial(m as int),
{
    if m == 1 || m == 6 || m == 7 {
        'J'
    } else if m == 2 {
        'F'
    } else if m == 3 || m == 5 {
        'M'
    } else if m == 4 || m == 8 {
        'A'
    } else if m == 9 {
        'S'
    } else if m == 10 {
        'O'
    } else if m == 11 {
        'N'
    } else {
        'D'
    }
}

// ── Formatting with chrono ─────────────────────────────────────────────

/// The text chrono writes for a date and a strftime pattern; none when
/// chrono reports the pattern as unusable for a date.
pub uninterp spec fn chrono_date_text(year: int, month: int, day: int, fmt: Seq<char>) -> Option<Seq<char>>;

/// The text chrono writes for a time of day and a strftime pattern; none
/// when chrono reports the pattern as unusable for a time.
pub uninterp spec fn chrono_time_text(
    hour: int,
    minute: int,
    second: int,
    nanosecond: int,
    fmt: Seq<char>,
) -> Option<Seq<char>>;

/// The text chrono writes for a date and time and a strftime pattern;
/// none when chrono reports the pattern as unusable.
pub uninterp spec fn chrono_datetime_text(
    year: int,
    month: int,
    day: int,
    hour: int,
    minute: int,
    second: int,
    nanosecond: int,
    fmt: Seq<char>,
) -> Option<Seq<char>>;

/// The text chrono writes for a date and time at a UTC offset (in
/// seconds east) and a strftime pattern; none when chrono has no such
/// offset or reports the pattern as unusable.
pub uninterp spec fn chrono_offset_datetime_text(
    year: int,
    month: int,
    day: int,
    hour: int,
    minute: int,
    second: int,
    nanosecond: int,
    offset: int,
    fmt: Seq<char>,
) -> Option<Seq<char>>;

/// The plain text of an optional string.
pub open spec fn opt_text(r: Option<String>) -> Option<Seq<char>> {
    match r {
        Some(t) => Some(t@),
        None => None,
    }
}

/// Calls `chrono::NaiveDate::format` and writes the result into a
/// string. Writing fails, rather than panicking, when the pattern holds
/// an unknown specifier or one that a date cannot fill.
#[verifier::external_body]
fn format_date(d: Date, fmt: &str) -> (r: Option<String>)
    requires
        d.valid(),
    ensures
        opt_text(r) == chrono_date_text(d.year as int, d.month as int, d.day as int, fmt@),
{
    let date = chrono::NaiveDate::from_ymd_opt(d.year, d.month as u32, d.day as u32)?;
    let mut out = String::new();
    match write!(out, "{}", date.format(fmt)) {
        Ok(()) => Some(out),
        Err(_) => None,
    }
}

/// Calls `chrono::NaiveTime::format` and writes the result into a
/// string; fails as [`format_date`] does.
#[verifier::external_body]
fn format_time(t: Time, fmt: &str) -> (r: Option<String>)
    requires
        t.valid(),
    ensures
        opt_text(r) == chrono_time_text(
            t.hour as int,
            t.minute as int,
            t.second as int,
            t.nanosecond as int,
            fmt@,
        ),
{
    let time = chrono::NaiveTime::from_hms_nano_opt(
        t.hour as u32,
        t.minute as u32,
        t.second as u32,
        t.nanosecond,
    )?;
    let mut out = String::new();
    match write!(out, "{}", time.format(fmt)) {
        Ok(()) => Some(out),
        Err(_) => None,
    }
}

/// Calls `chrono::NaiveDateTime::format` and writes the result into a
/// string; fails as [`format_date`] does.
#[verifier::external_body]
fn format_date_time(d: Date, t: Time, fmt: &str) -> (r: Option<String>)
    requires
        d.valid(),
        t.valid(),
    ensures
        opt_text(r) == chrono_datetime_text(
            d.year as int,
            d.month as int,
            d.day as int,
            t.hour as int,
            t.minute as int,
            t.second as int,
            t.nanosecond as int,
            fmt@,
        ),
{
    let date = chrono::NaiveDate::from_ymd_opt(d.year, d.month as u32, d.day as u32)?;
    let time = chrono::NaiveTime::from_hms_nano_opt(t.hour as u32, t.minute as u32, t.second as u32, t.nanosecond)?;
    let mut out = String::new();
    match write!(out, "{}", chrono::NaiveDateTime::new(date, time).format(fmt)) {
        Ok(()) => Some(out),
        Err(_) => None,
    }
}

/// Calls `chrono::FixedOffset::east_opt` for the offset, places the
/// date and time at it with `NaiveDateTime::and_local_timezone`, and
/// writes `chrono::DateTime::format` of the result into a string. Fails
/// when chrono has no such offset (a day or more) and as [`format_date`]
/// does.
#[verifier::external_body]
fn format_offset_date_time(d: Date, t: Time, offset: i32, fmt: &str) -> (r: Option<String>)
    requires
        d.valid(),
        t.valid(),
    ensures
        opt_text(r) == chrono_offset_datetime_text(
            d.year as int,
            d.month as int,
            d.day as int,
            t.hour as int,
            t.minute as int,
            t.second as int,
            t.nanosecond as int,
            offset as int,
            fmt@,
        ),
{
    let date = chrono::NaiveDate::from_ymd_opt(d.year, d.month as u32, d.day as u32)?;
    let time = chrono::NaiveTime::from_hms_nano_opt(t.hour as u32, t.minute as u32, t.second as u32, t.nanosecond)?;
    let zone = chrono::FixedOffset::east_opt(offset)?;
    let at = chrono::NaiveDateTime::new(date, time).and_local_timezone(zone).single()?;
    let mut out = String::new();
    match write!(out, "{}", at.format(fmt)) {
        Ok(()) => Some(out),
        Err(_) => None,
    }
}

/// `dt` formatted by the PartiQL pattern `format`: dates by their date
/// fields, times by their clock fields, timestamps by both, and a
/// timestamp with a zone at its own offset; where that cannot be written
/// (chrono has no offset of a day or more), by its date and clock fields
/// as a timestamp without a zone. `MMMMM` is the first letter of the
/// month where the value has a date. A time with a zone is formatted by
/// its clock fields alone, as a time of day has no date to place at an
/// offset.
pub open spec fn spec_format_datetime(dt: DateTime, format: Seq<char>) -> Option<Seq<char>> {
    let f = spec_convert_pattern(format);
    match dt {
        DateTime::Date(d) => chrono_date_text(
            d.year as int,
            d.month as int,
            d.day as int,
            convert_from(format, 0, Some(month_initial(d.month as int))),
        ),
        DateTime::Time(t) => chrono_time_text(t.hour as int, t.minute as int, t.second as int, t.nanosecond as int, f),
        DateTime::TimeWithTz(t, o) => chrono_time_text(t.hour as int, t.minute as int, t.second as int, t.nanosecond as int, f),
        DateTime::Timestamp(d, t) => chrono_datetime_text(
            d.year as int,
            d.month as int,
            d.day as int,
            t.hour as int,
            t.minute as int,
            t.second as int,
            t.nanosecond as int,
            convert_from(format, 0, Some(month_initial(d.month as int))),
        ),
        DateTime::TimestampWithTz(d, t, o) => {
            let g = convert_from(format, 0, Some(month_initial(d.month as int)));
            match chrono_offset_datetime_text(
                d.year as int,
                d.month as int,
                d.day as int,
                t.hour as int,
                t.minute as int,
                t.second as int,
                t.nanosecond as int,
                o as int,
                g,
            ) {
                Some(x) => Some(x),
                None => chrono_datetime_text(
                    d.year as int,
                    d.month as int,
                    d.day as int,
                    t.hour as int,
                    t.minute as int,
                    t.second as int,
                    t.nanosecond as int,
                    g,
                ),
            }
        },
    }
}

/// Format `dt` by the PartiQL pattern `format`.
///
/// None where chrono cannot apply the translated pattern: an unknown
/// specifier, or one that asks for a field the value does not have
/// (an hour of a date, an offset of a value without a zone). No text
/// exists for such a pair.
pub fn format_datetime(dt: &DateTime, format: &str) -> (r: Option<String>)
    requires
        dt.valid(),
    ensures
        opt_text(r) == spec_format_datetime(*dt, format@),
{
    match dt {
        DateTime::Date(d) => {
            let converted = convert_pattern_with_initial(format, Some(month_initial_of(d.month)));
            format_date(*d, converted.as_str())
        },
        DateTime::Time(t) => format_time(*t, convert_partiql_pattern_to_chrono(format).as_str()),
        DateTime::TimeWithTz(t, _) => format_time(*t, convert_partiql_pattern_to_chrono(format).as_str()),
        DateTime::Timestamp(d, t) => {
            let converted = convert_pattern_with_initial(format, Some(month_initial_of(d.month)));
            format_date_time(*d, *t, converted.as_str())
        },
        DateTime::TimestampWithTz(d, t, o) => {
            let converted = convert_pattern_with_initial(format, Some(month_initial_of(d.month)));
            match format_offset_date_time(*d, *t, *o, converted.as_str()) {
                Some(x) => Some(x),
                None => format_date_time(*d, *t, converted.as_str()),
            }
        },
    }
}

// ── The function ───────────────────────────────────────────────────────

/// `TO_STRING(timestamp, pattern)`.
#[derive(Debug, Clone, Copy, PartialEq, Eq)]
pub struct EvalFnToString;

/// `TO_STRING` bound to its two arguments.
#[derive(Debug)]
pub struct EvalExprToString {
    pub timestamp: Value,
    pub format: Value,
}

impl EvalFnToString {
    /// Bind `TO_STRING`: exactly two arguments, the date-time and the
    /// pattern.
    pub fn bind<const STRICT: bool>(self, args: Vec<Value>) -> (r: Result<EvalExprToString, BindError>)
        ensures
            args.len() == 2 ==> (r matches Ok(e) && e.timestamp == args@[0] && e.format == args@[1]),
            args.len() != 2 ==> (r matches Err(e) && is_arity_error(e, seq![2usize], args.len() as nat)),
    {
        if args.len() != 2 {
            return Err(arity_error(2, args.len()));
        }
        let mut args = args;
        let timestamp = args.remove(0);
        let format = args.remove(0);
        Ok(EvalExprToString { timestamp, format })
    }
}

impl EvalExprToString {
    /// Format the date-time argument by the pattern argument.
    pub fn evaluate(&self) -> (r: Option<Value>)
        requires
            self.timestamp matches Value::DateTime(dt) ==> dt.valid(),
        ensures
            match (self.timestamp, self.format) {
                (Value::DateTime(dt), Value::String(f)) => match spec_format_datetime(*dt, f@) {
                    Some(t) => r matches Some(Value::String(v)) && v@ == t,
                    None => r is None,
                },
                _ => r == Some(Value::Missing),
            },
    {
        match (&self.timestamp, &self.format) {
            (Value::DateTime(dt), Value::String(f)) => match format_datetime(dt, f.as_str()) {
                Some(text) => Some(Value::String(text)),
                None => None,
            },
            _ => Some(Value::Missing),
        }
    }
}

} // verus!
