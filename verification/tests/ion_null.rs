use partiql_winnow_parser::literal::ion_null::{ion_null, missing, IonNull, TypedNull};

fn chars(s: &str) -> Vec<char> {
    s.chars().collect()
}

fn rest(s: &[char], p: usize) -> String {
    s[p..].iter().collect()
}

#[test]
fn test_generic_null() {
    let i = chars("null rest");
    let (v, p) = ion_null(&i, 0).unwrap();
    assert_eq!(v, IonNull::Generic);
    assert_eq!(rest(&i, p), " rest");
}

#[test]
fn test_typed_null_int() {
    let i = chars("null.int rest");
    assert_eq!(ion_null(&i, 0).unwrap().0, IonNull::Typed(TypedNull::Int));
}

#[test]
fn test_typed_null_string() {
    let i = chars("null.string rest");
    assert_eq!(ion_null(&i, 0).unwrap().0, IonNull::Typed(TypedNull::String));
}

#[test]
fn test_typed_null_struct() {
    let i = chars("null.struct rest");
    assert_eq!(ion_null(&i, 0).unwrap().0, IonNull::Typed(TypedNull::Struct));
}

#[test]
fn test_typed_null_all_types() {
    for (input, expected) in [
        ("null.null", TypedNull::Null),
        ("null.bool", TypedNull::Bool),
        ("null.int", TypedNull::Int),
        ("null.float", TypedNull::Float),
        ("null.decimal", TypedNull::Decimal),
        ("null.timestamp", TypedNull::Timestamp),
        ("null.string", TypedNull::String),
        ("null.symbol", TypedNull::Symbol),
        ("null.blob", TypedNull::Blob),
        ("null.clob", TypedNull::Clob),
        ("null.list", TypedNull::List),
        ("null.sexp", TypedNull::Sexp),
        ("null.struct", TypedNull::Struct),
    ] {
        let i = chars(input);
        assert_eq!(ion_null(&i, 0).unwrap().0, IonNull::Typed(expected), "Failed for: {input}");
    }
}

#[test]
fn ion_null_test_missing() {
    let i = chars("MISSING rest");
    let (_, p) = missing(&i, 0).unwrap();
    assert_eq!(rest(&i, p), " rest");
    let i = chars("missing rest");
    assert!(missing(&i, 0).is_ok());
}

#[test]
fn test_null_unknown_type_fails() {
    assert!(ion_null(&chars("null.date"), 0).is_err());
    assert!(ion_null(&chars("nullable"), 0).is_err());
}
