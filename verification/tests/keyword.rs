use partiql_winnow_parser::text::{ch, kw, lit};

fn chars(s: &str) -> Vec<char> {
    s.chars().collect()
}

fn rest(s: &[char], p: usize) -> String {
    s[p..].iter().collect()
}

#[test]
fn test_case_insensitive() {
    let i = chars("SELECT rest");
    let p = kw(&i, 0, "SELECT").expect("keyword");
    assert_eq!(rest(&i, p), " rest");
    let i = chars("select rest");
    assert!(kw(&i, 0, "SELECT").is_some());
    let i = chars("SeLeCt rest");
    assert!(kw(&i, 0, "SELECT").is_some());
}

#[test]
fn test_no_match() {
    let i = chars("INSERT rest");
    assert!(kw(&i, 0, "SELECT").is_none());
}

#[test]
fn test_word_boundary_enforced() {
    let i = chars("SELECTING rest");
    assert!(kw(&i, 0, "SELECT").is_none());
}

#[test]
fn test_word_boundary_allows_non_alpha() {
    assert!(kw(&chars("SELECT rest"), 0, "SELECT").is_some());
    assert!(kw(&chars("SELECT("), 0, "SELECT").is_some());
    assert!(kw(&chars("SELECT"), 0, "SELECT").is_some());
}

#[test]
fn test_or_not_matching_order() {
    let i = chars("ORDER BY");
    assert!(kw(&i, 0, "OR").is_none());
}

#[test]
fn test_underscore_is_a_word_char() {
    assert!(kw(&chars("IN_LIST"), 0, "IN").is_none());
}

#[test]
fn test_ch_and_lit() {
    let i = chars("<<x");
    assert_eq!(lit(&i, 0, "<<"), Some(2));
    assert_eq!(lit(&i, 1, "<<"), None);
    assert_eq!(ch(&i, 2, 'x'), Some(3));
    assert_eq!(ch(&i, 3, 'x'), None);
}
