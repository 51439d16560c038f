use partiql_winnow_parser::literal::ion::annotation::{annotations, Annotation};

fn chars(s: &str) -> Vec<char> {
    s.chars().collect()
}

fn rest(s: &[char], p: usize) -> String {
    s[p..].iter().collect()
}

#[test]
fn test_no_annotations() {
    let i = chars("42 rest");
    let (anns, p) = annotations(&i, 0);
    assert!(anns.as_slice().is_empty());
    assert_eq!(rest(&i, p), "42 rest");
}

#[test]
fn test_single_identifier_annotation() {
    let i = chars("dollars::100");
    let (anns, p) = annotations(&i, 0);
    assert_eq!(anns.as_slice(), &[Annotation::Identifier("dollars".into())]);
    assert_eq!(rest(&i, p), "100");
}

#[test]
fn test_multiple_annotations() {
    let i = chars("a::b::42");
    let (anns, p) = annotations(&i, 0);
    assert_eq!(
        anns.as_slice(),
        &[Annotation::Identifier("a".into()), Annotation::Identifier("b".into())]
    );
    assert_eq!(rest(&i, p), "42");
}

#[test]
fn test_quoted_symbol_annotation() {
    let i = chars("'custom type'::null");
    let (anns, p) = annotations(&i, 0);
    assert_eq!(anns.as_slice(), &[Annotation::QuotedSymbol("custom type".into())]);
    assert_eq!(rest(&i, p), "null");
}

#[test]
fn test_symbol_id_annotation() {
    let i = chars("$10::value");
    let (anns, p) = annotations(&i, 0);
    assert_eq!(anns.as_slice(), &[Annotation::SymbolId(10)]);
    assert_eq!(rest(&i, p), "value");
}

#[test]
fn test_mixed_annotations() {
    let i = chars("a::'type'::$0::42");
    let (anns, p) = annotations(&i, 0);
    assert_eq!(
        anns.as_slice(),
        &[
            Annotation::Identifier("a".into()),
            Annotation::QuotedSymbol("type".into()),
            Annotation::SymbolId(0),
        ]
    );
    assert_eq!(rest(&i, p), "42");
}

#[test]
fn test_identifier_without_colons_not_annotation() {
    let i = chars("hello world");
    let (anns, p) = annotations(&i, 0);
    assert!(anns.as_slice().is_empty());
    assert_eq!(rest(&i, p), "hello world");
}

#[test]
fn test_symbol_id_zero() {
    let i = chars("$0::value");
    let (anns, _) = annotations(&i, 0);
    assert_eq!(anns.as_slice(), &[Annotation::SymbolId(0)]);
}
