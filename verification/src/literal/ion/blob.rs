//! Ion blobs: `{{ base64 }}`.
//!
//! ```text
//! blob ::= '{{' ([A-Za-z0-9+/=] | whitespace)* '}}'
//! ```
//! The payload is everything between `{{` and the first `}}`, with ASCII
//! whitespace removed; any other char there must be in the base64
//! alphabet.
use crate::identifier::text_result;
use crate::parse_context::ParseError;
use crate::text::push_char;
use vstd::prelude::*;

verus! {

/// `char::is_ascii_whitespace`: space, tab, line feed, form feed, carriage return.
pub open spec fn is_ascii_whitespace(c: char) -> bool {
    c == ' ' || c == '\t' || c == '\n' || c == '\x0C' || c == '\r'
}

/// A char of the base64 alphabet: a letter, a digit, `+`, `/` or `=`.
pub open spec fn is_base64_char(c: char) -> bool {
    ('A' <= c && c <= 'Z') || ('a' <= c && c <= 'z') || ('0' <= c && c <= '9') || c == '+' || c == '/' || c
        == '='
}

/// Every char of `t` is base64 or ASCII whitespace.
pub open spec fn blob_text_ok(t: Seq<char>) -> bool {
    forall|k: int| 0 <= k < t.len() ==> is_base64_char(#[trigger] t[k]) || is_ascii_whitespace(t[k])
}

/// `t` without its ASCII whitespace.
pub open spec fn drop_ascii_whitespace(t: Seq<char>) -> Seq<char>
    decreases t.len(),
{
    if t.len() == 0 {
        t
    } else if is_ascii_whitespace(t.last()) {
        drop_ascii_whitespace(t.drop_last())
    } else {
        drop_ascii_whitespace(t.drop_last()).push(t.last())
    }
}

/// `}}` stands at `k`.
pub open spec fn close_at(s: Seq<char>, k: int) -> bool {
    0 <= k && k + 1 < s.len() && s[k] == '}' && s[k + 1] == '}'
}

/// First `i' >= i` where `}}` stands.
pub open spec fn find_close(s: Seq<char>, i: int) -> Option<int>
    decreases s.len() - i,
{
    if i < 0 || i + 1 >= s.len() {
        None
    } else if s[i] == '}' && s[i + 1] == '}' {
        Some(i)
    } else {
        find_close(s, i + 1)
    }
}

/// The blob at `pos`: its whitespace-free payload and the position past
/// `}}`; none when a char between the braces is neither base64 nor
/// whitespace.
pub open spec fn spec_ion_blob_payload(s: Seq<char>, pos: int) -> Option<(Seq<char>, int)> {
    if 0 <= pos && pos + 1 < s.len() && s[pos] == '{' && s[pos + 1] == '{' {
        match find_close(s, pos + 2) {
            Some(j) => if blob_text_ok(s.subrange(pos + 2, j)) {
                Some((drop_ascii_whitespace(s.subrange(pos + 2, j)), j + 2))
            } else {
                None
            },
            None => None,
        }
    } else {
        None
    }
}

proof fn lemma_find_close_skip(s: Seq<char>, i: int, j: int)
    requires
        0 <= i <= j,
        forall|k: int| i <= k < j ==> !#[trigger] close_at(s, k),
        j + 1 < s.len(),
    ensures
        find_close(s, i) == find_close(s, j),
    decreases j - i,
{
    if i < j {
        assert(!close_at(s, i));
        lemma_find_close_skip(s, i + 1, j);
    }
}

proof fn lemma_find_close_none(s: Seq<char>, i: int)
    requires
        0 <= i,
        forall|k: int| i <= k ==> !#[trigger] close_at(s, k),
    ensures
        find_close(s, i) is None,
    decreases s.len() - i,
{
    if i + 1 < s.len() {
        assert(!close_at(s, i));
        lemma_find_close_none(s, i + 1);
    }
}

/// Parse an Ion blob literal, returning the whitespace-stripped base64 payload.
pub fn ion_blob_payload(s: &[char], pos: usize) -> (r: Result<(String, usize), ParseError>)
    requires
        pos <= s@.len(),
    ensures
        text_result(r) == spec_ion_blob_payload(s@, pos as int),
        r matches Err(e) ==> e == ParseError::Backtrack,
{
    let n = s.len();
    if n - pos < 2 || s[pos] != '{' || s[pos + 1] != '{' {
        return Err(ParseError::Backtrack);
    }
    let mut i = pos + 2;
    while i < n - 1 && !(s[i] == '}' && s[i + 1] == '}')
        invariant
            pos + 2 <= i <= n == s@.len(),
            n >= 2,
            s@[pos as int] == '{' && s@[pos + 1] == '{',
            forall|k: int| pos + 2 <= k < i ==> !#[trigger] close_at(s@, k),
        decreases n - i,
    {
        i = i + 1;
    }
    if i >= n - 1 {
        proof {
            assert forall|k: int| pos + 2 <= k implies !#[trigger] close_at(s@, k) by {
                if k >= i {
                }
            }
            lemma_find_close_none(s@, pos + 2);
        }
        return Err(ParseError::Backtrack);
    }
    proof {
        assert(close_at(s@, i as int));
        lemma_find_close_skip(s@, pos + 2, i as int);
        assert(find_close(s@, pos + 2) == Some(i as int));
    }
    let mut out = String::new();
    let mut k = pos + 2;
    while k < i
        invariant
            pos + 2 <= k <= i < s@.len(),
            out@ == drop_ascii_whitespace(s@.subrange(pos + 2, k as int)),
            forall|m: int| pos + 2 <= m < k ==> is_base64_char(#[trigger] s@[m]) || is_ascii_whitespace(s@[m]),
            find_close(s@, pos + 2) == Some(i as int),
            s@[pos as int] == '{' && s@[pos + 1] == '{',
        decreases i - k,
    {
        let c = s[k];
        proof {
            assert(s@.subrange(pos + 2, k + 1).drop_last() =~= s@.subrange(pos + 2, k as int));
        }
        let blank = c == ' ' || c == '\t' || c == '\n' || c == '\x0C' || c == '\r';
        let base64 = ('A' <= c && c <= 'Z') || ('a' <= c && c <= 'z') || ('0' <= c && c <= '9') || c == '+'
            || c == '/' || c == '=';
        if !blank && !base64 {
            proof {
                assert(s@.subrange(pos + 2, i as int)[k - (pos + 2)] == c);
                assert(!blob_text_ok(s@.subrange(pos + 2, i as int)));
            }
            return Err(ParseError::Backtrack);
        }
        if !blank {
            push_char(&mut out, c);
        }
        k = k + 1;
    }
    proof {
        assert forall|m: int| 0 <= m < s@.subrange(pos + 2, i as int).len() implies is_base64_char(
            #[trigger] s@.subrange(pos + 2, i as int)[m],
        ) || is_ascii_whitespace(s@.subrange(pos + 2, i as int)[m]) by {
            assert(s@.subrange(pos + 2, i as int)[m] == s@[pos + 2 + m]);
        }
    }
    Ok((out, i + 2))
}

} // verus!
