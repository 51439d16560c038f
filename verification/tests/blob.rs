use partiql_winnow_parser::literal::ion::blob::ion_blob_payload;

fn chars(s: &str) -> Vec<char> {
    s.chars().collect()
}

fn rest(s: &[char], p: usize) -> String {
    s[p..].iter().collect()
}

#[test]
fn parses_basic_blob() {
    let input = chars("{{dGVzdCBkYXRh}}rest");
    let (payload, p) = ion_blob_payload(&input, 0).unwrap();
    assert_eq!(payload, "dGVzdCBkYXRh");
    assert_eq!(rest(&input, p), "rest");
}

#[test]
fn strips_inner_whitespace() {
    let input = chars("{{  dGVzdCBkYXRh  }}");
    assert_eq!(ion_blob_payload(&input, 0).unwrap().0, "dGVzdCBkYXRh");
}

#[test]
fn handles_empty_blob() {
    let input = chars("{{}}");
    assert_eq!(ion_blob_payload(&input, 0).unwrap().0, "");
}

#[test]
fn handles_padding_chars() {
    let input = chars("{{aGVsbG8=}}");
    assert_eq!(ion_blob_payload(&input, 0).unwrap().0, "aGVsbG8=");
}

#[test]
fn rejects_unterminated() {
    let input = chars("{{dGVzdA");
    assert!(ion_blob_payload(&input, 0).is_err());
}

#[test]
fn rejects_single_curly() {
    let input = chars("{a: 1}");
    assert!(ion_blob_payload(&input, 0).is_err());
}
