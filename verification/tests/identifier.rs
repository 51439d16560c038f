use partiql_winnow_parser::identifier::{dotted_path, identifier, quoted_identifier, unquoted_identifier};

fn chars(s: &str) -> Vec<char> {
    s.chars().collect()
}

fn rest(s: &[char], p: usize) -> String {
    s[p..].iter().collect()
}

#[test]
fn identifier_test_quoted_identifier() {
    let i = chars(r#""my.table" rest"#);
    let (v, p) = quoted_identifier(&i, 0).unwrap();
    assert_eq!(v, "my.table");
    assert_eq!(rest(&i, p), " rest");
}

#[test]
fn test_quoted_with_spaces() {
    let i = chars(r#""my table" rest"#);
    assert_eq!(quoted_identifier(&i, 0).unwrap().0, "my table");
}

#[test]
fn test_unquoted_identifier() {
    let i = chars("users rest");
    let (v, p) = unquoted_identifier(&i, 0).unwrap();
    assert_eq!(v, "users");
    assert_eq!(rest(&i, p), " rest");
}

#[test]
fn test_unquoted_with_underscore() {
    let i = chars("_private_field rest");
    assert_eq!(unquoted_identifier(&i, 0).unwrap().0, "_private_field");
}

#[test]
fn test_unquoted_with_numbers() {
    let i = chars("field123 rest");
    assert_eq!(unquoted_identifier(&i, 0).unwrap().0, "field123");
}

#[test]
fn test_unquoted_rejects_leading_number() {
    let i = chars("123field rest");
    assert!(unquoted_identifier(&i, 0).is_err());
}

#[test]
fn test_identifier_prefers_quoted() {
    let i = chars(r#""users" rest"#);
    assert_eq!(identifier(&i, 0).unwrap().0, "users");
}

#[test]
fn test_identifier_falls_back_to_unquoted() {
    let i = chars("users rest");
    assert_eq!(identifier(&i, 0).unwrap().0, "users");
}

#[test]
fn test_dotted_path_simple() {
    let i = chars("a.b.c rest");
    let (v, p) = dotted_path(&i, 0).unwrap();
    assert_eq!(v, "a.b.c");
    assert_eq!(rest(&i, p), " rest");
}

#[test]
fn test_dotted_path_quoted() {
    let i = chars(r#""schema"."table" rest"#);
    assert_eq!(dotted_path(&i, 0).unwrap().0, "schema.table");
}

#[test]
fn test_dotted_path_single() {
    let i = chars("users rest");
    let (v, p) = dotted_path(&i, 0).unwrap();
    assert_eq!(v, "users");
    assert_eq!(rest(&i, p), " rest");
}

#[test]
fn test_quoted_identifier_empty_is_rejected() {
    let i = chars(r#""" rest"#);
    assert!(quoted_identifier(&i, 0).is_err());
}

#[test]
fn test_dotted_path_dangling_dot_fails() {
    let i = chars("a. rest");
    assert!(dotted_path(&i, 0).is_err());
}
