use partiql_winnow_parser::literal::ion::string::{ion_string, sql_string};

/// An input and a position in it, as a parse moves through it.
struct Input {
    s: Vec<char>,
    p: std::cell::Cell<usize>,
}

impl Input {
    fn new(text: &str) -> Self {
        Input { s: text.chars().collect(), p: std::cell::Cell::new(0) }
    }

    /// Run a scanner at the current position; on success, move past what it read.
    fn run<T, E>(&self, f: fn(&[char], usize) -> Result<(T, usize), E>) -> Result<T, E> {
        let (v, q) = f(&self.s, self.p.get())?;
        self.p.set(q);
        Ok(v)
    }

    fn rest(&self) -> String {
        self.s[self.p.get()..].iter().collect()
    }
}

impl PartialEq<&str> for Input {
    fn eq(&self, other: &&str) -> bool {
        self.rest() == *other
    }
}

impl std::fmt::Debug for Input {
    fn fmt(&self, f: &mut std::fmt::Formatter<'_>) -> std::fmt::Result {
        f.write_str(&format!("{:?}", self.rest()))
    }
}

// Ion double-quoted strings
#[test]
fn test_ion_string_simple() {
    let i = Input::new(r#""hello" rest"#);
    assert_eq!(i.run(ion_string).unwrap(), "hello");
    assert_eq!(i, " rest");
}

#[test]
fn test_ion_string_escape_newline() {
    let i = Input::new(r#""line\nbreak" rest"#);
    assert_eq!(i.run(ion_string).unwrap(), "line\nbreak");
}

#[test]
fn test_ion_string_escape_tab() {
    let i = Input::new(r#""col\tcol" rest"#);
    assert_eq!(i.run(ion_string).unwrap(), "col\tcol");
}

#[test]
fn test_ion_string_escape_backslash() {
    let i = Input::new(r#""path\\file" rest"#);
    assert_eq!(i.run(ion_string).unwrap(), "path\\file");
}

#[test]
fn test_ion_string_escape_quote() {
    let i = Input::new(r#""say \"hi\"" rest"#);
    assert_eq!(i.run(ion_string).unwrap(), r#"say "hi""#);
}

#[test]
fn test_ion_string_unicode_escape() {
    let i = Input::new(r#""\u0041" rest"#); // U+0041 = 'A'
    assert_eq!(i.run(ion_string).unwrap(), "A");
}

#[test]
fn test_ion_string_hex_escape() {
    let i = Input::new(r#""\x41" rest"#); // 0x41 = 'A'
    assert_eq!(i.run(ion_string).unwrap(), "A");
}

#[test]
fn test_ion_string_empty() {
    let i = Input::new(r#""" rest"#);
    assert_eq!(i.run(ion_string).unwrap(), "");
}

// SQL single-quoted strings
#[test]
fn test_sql_string_simple() {
    let i = Input::new("'hello' rest");
    assert_eq!(i.run(sql_string).unwrap(), "hello");
    assert_eq!(i, " rest");
}

#[test]
fn test_sql_string_escaped_quote() {
    let i = Input::new("'it''s' rest");
    assert_eq!(i.run(sql_string).unwrap(), "it's");
}

#[test]
fn test_sql_string_empty() {
    let i = Input::new("'' rest");
    assert_eq!(i.run(sql_string).unwrap(), "");
}

#[test]
fn test_sql_string_backslash_literal() {
    // SQL strings don't interpret backslash escapes
    let i = Input::new(r"'path\file' rest");
    assert_eq!(i.run(sql_string).unwrap(), r"path\file");
}

#[test]
fn test_sql_string_with_double_quotes() {
    let i = Input::new(r#"'say "hi"' rest"#);
    assert_eq!(i.run(sql_string).unwrap(), r#"say "hi""#);
}
