//! Ion annotations: the symbols before `::` in `dollars::100`, `a::b::42`.
//!
//! ```text
//! annotated_value ::= (symbol '::')* value
//! annotation      ::= unquoted_symbol '::' | quoted_symbol '::' | symbol_id '::'
//! symbol_id       ::= '$' [0-9]+
//! ```
//! Quoted symbols are single-quoted and use backslash escapes, not SQL
//! doubling.
use crate::identifier::{spec_unquoted_identifier, text_result, unquoted_identifier};
use crate::literal::ion::number::radix_value;
use crate::literal::ion::string::{escaped_body, spec_escaped_body};
use crate::parse_context::ParseError;
use crate::text::{char_at, in_class, lemma_run_end, lit, lit_at, run_end, take_while, CharClass};
use smallvec::SmallVec;
use vstd::prelude::*;

verus! {

/// A single Ion annotation: the symbol before `::`.
#[derive(Debug, PartialEq)]
pub enum Annotation {
    /// Unquoted identifier: `dollars`, `myType`
    Identifier(String),
    /// Single-quoted symbol: `'custom type'`, `'null'`
    QuotedSymbol(String),
    /// Symbol ID: `$0`, `$10`
    SymbolId(u32),
}

/// Plain value of an annotation.
pub enum AnnotationView {
    Identifier(Seq<char>),
    QuotedSymbol(Seq<char>),
    SymbolId(u32),
}

impl Annotation {
    pub open spec fn view(&self) -> AnnotationView {
        match self {
            Annotation::Identifier(s) => AnnotationView::Identifier(s@),
            Annotation::QuotedSymbol(s) => AnnotationView::QuotedSymbol(s@),
            Annotation::SymbolId(n) => AnnotationView::SymbolId(*n),
        }
    }
}

/// The annotations read before a value, kept in a `SmallVec` with room
/// for eight inline.
#[verifier::external_body]
pub struct AnnotationList {
    items: SmallVec<[Annotation; 8]>,
}

/// The annotations held by a list, in order.
pub uninterp spec fn annotation_items(v: AnnotationList) -> Seq<Annotation>;

impl AnnotationList {
    /// An empty list.
    ///
    /// Trusted: calls `SmallVec::new`, which creates an empty vector.
    #[verifier::external_body]
    fn new() -> (r: AnnotationList)
        ensures
            annotation_items(r) == Seq::<Annotation>::empty(),
    {
        AnnotationList { items: SmallVec::new() }
    }

    /// Append an annotation.
    ///
    /// Trusted: calls `SmallVec::push`, which appends the item at the end
    /// and keeps the others in order. `push` panics only when the new
    /// capacity overflows, which needs more items than memory can hold;
    /// that case is left unsaid.
    #[verifier::external_body]
    fn push(&mut self, a: Annotation)
        ensures
            annotation_items(*final(self)) == annotation_items(*old(self)).push(a),
    {
        self.items.push(a);
    }

    /// The annotations, in order.
    ///
    /// Trusted: calls `SmallVec::as_slice`, which views the items in order.
    #[verifier::external_body]
    pub fn as_slice(&self) -> (r: &[Annotation])
        ensures
            r@ == annotation_items(*self),
    {
        self.items.as_slice()
    }
}

/// The symbol id at `pos`: `$` then decimal digits whose value fits in a `u32`.
pub open spec fn spec_symbol_id(s: Seq<char>, pos: int) -> Option<(u32, int)> {
    let e = run_end(s, pos + 1, CharClass::Digit);
    if char_at(s, pos, '$') && e > pos + 1 && radix_value(s.subrange(pos + 1, e), 10)
        <= u32::MAX {
        Some((radix_value(s.subrange(pos + 1, e), 10) as u32, e))
    } else {
        None
    }
}

/// The annotation symbol at `pos`, without its `::`.
pub open spec fn spec_annotation_symbol(s: Seq<char>, pos: int) -> Option<(AnnotationView, int)> {
    if char_at(s, pos, '$') && 0 <= pos + 1 < s.len() && crate::text::is_digit(s[pos + 1]) {
        match spec_symbol_id(s, pos) {
            Some((n, e)) => Some((AnnotationView::SymbolId(n), e)),
            None => None,
        }
    } else if char_at(s, pos, '\'') {
        match spec_escaped_body(s, pos + 1, '\'') {
            Some((t, e)) => Some((AnnotationView::QuotedSymbol(t), e)),
            None => None,
        }
    } else {
        match spec_unquoted_identifier(s, pos) {
            Some((t, e)) => Some((AnnotationView::Identifier(t), e)),
            None => None,
        }
    }
}

/// The annotations that stand at `pos`: each symbol followed by `::`.
pub open spec fn spec_annotations(s: Seq<char>, pos: int) -> (Seq<AnnotationView>, int)
    decreases s.len() - pos,
{
    if 0 <= pos <= s.len() {
        match spec_annotation_symbol(s, pos) {
            Some((a, q)) => if lit_at(s, q, seq![':', ':']) && q > pos {
                let (rest, e) = spec_annotations(s, q + 2);
                (seq![a] + rest, e)
            } else {
                (Seq::empty(), pos)
            },
            None => (Seq::empty(), pos),
        }
    } else {
        (Seq::empty(), pos)
    }
}

/// Parse a single-quoted Ion symbol: `'hello world'`, `'null'`.
pub fn quoted_symbol(s: &[char], pos: usize) -> (r: Result<(String, usize), ParseError>)
    requires
        pos <= s@.len(),
    ensures
        text_result(r) == (if char_at(s@, pos as int, '\'') {
            spec_escaped_body(s@, pos + 1, '\'')
        } else {
            None
        }),
        r matches Err(e) ==> e == ParseError::Backtrack,
{
    if pos < s.len() && s[pos] == '\'' {
        escaped_body(s, pos + 1, '\'')
    } else {
        Err(ParseError::Backtrack)
    }
}

/// Parse a symbol ID: `$0`, `$10`, `$256`.
pub fn symbol_id(s: &[char], pos: usize) -> (r: Result<(u32, usize), ParseError>)
    requires
        pos <= s@.len(),
    ensures
        (match r {
            Ok((n, e)) => Some((n, e as int)),
            Err(_) => None,
        }) == spec_symbol_id(s@, pos as int),
        r matches Err(e) ==> e == ParseError::Backtrack,
{
    let n = s.len();
    if !(pos < n && s[pos] == '$') {
        return Err(ParseError::Backtrack);
    }
    let e = take_while(s, pos + 1, CharClass::Digit);
    if e == pos + 1 {
        return Err(ParseError::Backtrack);
    }
    let mut v: u32 = 0;
    let mut i = pos + 1;
    while i < e
        invariant
            pos + 1 <= i <= e <= s@.len(),
            e == run_end(s@, pos + 1, CharClass::Digit),
            char_at(s@, pos as int, '$'),
            e > pos + 1,
            crate::text::maximal_run(s@, pos + 1, e as int, CharClass::Digit),
            v == radix_value(s@.subrange(pos + 1, i as int), 10),
        decreases e - i,
    {
        let c = s[i];
        proof {
            assert(in_class(s@[i as int], CharClass::Digit));
            assert(s@.subrange(pos + 1, i + 1).drop_last() =~= s@.subrange(pos + 1, i as int));
        }
        let d = (c as u32) - ('0' as u32);
        proof {
            let pre = s@.subrange(pos + 1, i as int);
            assert(s@.subrange(pos + 1, i + 1).last() == c);
            assert(radix_value(s@.subrange(pos + 1, i + 1), 10) == v * 10 + d);
            assert(s@.subrange(pos + 1, e as int).subrange(0, i + 1 - pos - 1) =~= s@.subrange(pos + 1, i + 1));
        }
        match v.checked_mul(10) {
            Some(m) => match m.checked_add(d) {
                Some(w) => {
                    v = w;
                },
                None => {
                    proof {
                        lemma_digits_overflow(s@.subrange(pos + 1, e as int), (i + 1 - pos - 1) as int);
                        assert(radix_value(s@.subrange(pos + 1, e as int), 10) > u32::MAX);
                    }
                    return Err(ParseError::Backtrack);
                },
            },
            None => {
                proof {
                    assert(s@.subrange(pos + 1, e as int).subrange(0, i + 1 - pos - 1) =~= s@.subrange(pos + 1, i + 1));
                    assert(v * 10 + d > u32::MAX) by (nonlinear_arith)
                        requires v * 10 > u32::MAX, d >= 0;
                    lemma_digits_overflow(s@.subrange(pos + 1, e as int), (i + 1 - pos - 1) as int);
                    assert(radix_value(s@.subrange(pos + 1, e as int), 10) > u32::MAX);
                }
                return Err(ParseError::Backtrack);
            },
        }
        i = i + 1;
    }
    proof {
        assert(s@.subrange(pos + 1, i as int) =~= s@.subrange(pos + 1, e as int));
    }
    Ok((v, e))
}

proof fn lemma_digits_overflow(t: Seq<char>, i: int)
    requires
        0 <= i <= t.len(),
        radix_value(t.subrange(0, i), 10) > u32::MAX,
    ensures
        radix_value(t, 10) > u32::MAX,
    decreases t.len() - i,
{
    if i < t.len() {
        assert(t.subrange(0, i + 1).drop_last() =~= t.subrange(0, i));
        lemma_digits_overflow(t, i + 1);
    } else {
        assert(t.subrange(0, i) =~= t);
    }
}

/// Parse a single annotation symbol, without consuming `::`.
pub fn annotation_symbol(s: &[char], pos: usize) -> (r: Result<(Annotation, usize), ParseError>)
    requires
        pos <= s@.len(),
    ensures
        (match r {
            Ok((a, e)) => Some((a.view(), e as int)),
            Err(_) => None,
        }) == spec_annotation_symbol(s@, pos as int),
        r matches Err(e) ==> e == ParseError::Backtrack,
        r matches Ok((a, e)) ==> pos < e <= s@.len(),
{
    proof {
        crate::identifier::lemma_identifier_advances(s@, pos as int);
        if pos + 1 <= s@.len() {
            lemma_run_end(s@, pos + 1, CharClass::Digit);
            crate::literal::ion::string::lemma_escaped_body_advances(s@, pos + 1, '\'');
        }
    }
    let n = s.len();
    if pos < n && s[pos] == '$' && pos + 1 < n && crate::text::is_ascii_digit(s[pos + 1]) {
        let (v, e) = symbol_id(s, pos)?;
        return Ok((Annotation::SymbolId(v), e));
    }
    if pos < n && s[pos] == '\'' {
        let (t, e) = quoted_symbol(s, pos)?;
        return Ok((Annotation::QuotedSymbol(t), e));
    }
    let (t, e) = unquoted_identifier(s, pos)?;
    Ok((Annotation::Identifier(t), e))
}

/// Parse zero or more annotations: the `a::b::` prefix before a value.
///
/// Returns the annotations consumed and the position after the last `::`;
/// with no annotation there, an empty list and `pos`. Never fails.
pub fn annotations(s: &[char], pos: usize) -> (r: (AnnotationList, usize))
    requires
        pos <= s@.len(),
    ensures
        annotation_items(r.0).map_values(|a: Annotation| a.view()) == spec_annotations(
            s@,
            pos as int,
        ).0,
        r.1 == spec_annotations(s@, pos as int).1,
{
    proof {
        reveal_strlit("::");
        assert("::"@ =~= seq![':', ':']);
    }
    let mut result = AnnotationList::new();
    let mut p = pos;
    loop
        invariant
            pos <= p <= s@.len(),
            spec_annotations(s@, pos as int) == ({
                let (rest, e) = spec_annotations(s@, p as int);
                (annotation_items(result).map_values(|a: Annotation| a.view()) + rest, e)
            }),
        decreases s@.len() - p,
    {
        proof {
            reveal_strlit("::");
            assert("::"@ =~= seq![':', ':']);
        }
        match annotation_symbol(s, p) {
            Ok((a, q)) => {
                let colons = lit(s, q, "::");
                if q > p && colons.is_some() {
                    let ghost before = annotation_items(result);
                    let ghost av = a.view();
                    result.push(a);
                    proof {
                        let (rest, e) = spec_annotations(s@, q + 2);
                        assert(annotation_items(result).map_values(|a: Annotation| a.view())
                            =~= before.map_values(|a: Annotation| a.view()).push(av));
                        assert(annotation_items(result).map_values(|a: Annotation| a.view()) + rest
                            =~= before.map_values(|a: Annotation| a.view()) + (seq![av] + rest));
                    }
                    p = colons.unwrap();
                } else {
                    proof {
                        assert(annotation_items(result).map_values(|a: Annotation| a.view())
                            + Seq::<AnnotationView>::empty() =~= annotation_items(result).map_values(
                            |a: Annotation| a.view(),
                        ));
                    }
                    return (result, p);
                }
            },
            Err(_) => {
                proof {
                    assert(annotation_items(result).map_values(|a: Annotation| a.view())
                        + Seq::<AnnotationView>::empty() =~= annotation_items(result).map_values(
                        |a: Annotation| a.view(),
                    ));
                }
                return (result, p);
            },
        }
    }
}

} // verus!
