use partiql_winnow_parser::literal::ion::timestamp::ion_timestamp;

/// An input and a position in it, as a parse moves through it.
struct Input {
    s: Vec<char>,
    p: std::cell::Cell<usize>,
}

impl Input {
    fn new(text: &str) -> Self {
        Input { s: text.chars().collect(), p: std::cell::Cell::new(0) }
    }

    /// Run a scanner at the current position; on success, move past what it read.
    fn run<T, E>(&self, f: fn(&[char], usize) -> Result<(T, usize), E>) -> Result<T, E> {
        let (v, q) = f(&self.s, self.p.get())?;
        self.p.set(q);
        Ok(v)
    }

    fn rest(&self) -> String {
        self.s[self.p.get()..].iter().collect()
    }
}

impl PartialEq<&str> for Input {
    fn eq(&self, other: &&str) -> bool {
        self.rest() == *other
    }
}

impl std::fmt::Debug for Input {
    fn fmt(&self, f: &mut std::fmt::Formatter<'_>) -> std::fmt::Result {
        f.write_str(&format!("{:?}", self.rest()))
    }
}

#[test]
fn test_year_only() {
    let i = Input::new("2024T rest");
    assert_eq!(i.run(ion_timestamp).unwrap(), "2024T");
    assert_eq!(i, " rest");
}

#[test]
fn test_year_month() {
    let i = Input::new("2024-01T rest");
    assert_eq!(i.run(ion_timestamp).unwrap(), "2024-01T");
}

#[test]
fn test_date_only() {
    let i = Input::new("2024-01-15 rest");
    assert_eq!(i.run(ion_timestamp).unwrap(), "2024-01-15");
}

#[test]
fn test_date_with_trailing_t() {
    let i = Input::new("2024-01-15T rest");
    assert_eq!(i.run(ion_timestamp).unwrap(), "2024-01-15T");
}

#[test]
fn test_minute_precision_utc() {
    let i = Input::new("2024-01-15T12:30Z rest");
    assert_eq!(i.run(ion_timestamp).unwrap(), "2024-01-15T12:30Z");
}

#[test]
fn test_second_precision_utc() {
    let i = Input::new("2024-01-15T12:30:45Z rest");
    assert_eq!(i.run(ion_timestamp).unwrap(), "2024-01-15T12:30:45Z");
}

#[test]
fn test_fractional_seconds() {
    let i = Input::new("2024-01-15T12:30:45.123456Z rest");
    assert_eq!(
        i.run(ion_timestamp).unwrap(),
        "2024-01-15T12:30:45.123456Z"
    );
}

#[test]
fn test_positive_offset() {
    let i = Input::new("2024-01-15T12:30:00+05:30 rest");
    assert_eq!(i.run(ion_timestamp).unwrap(), "2024-01-15T12:30:00+05:30");
}

#[test]
fn test_negative_offset() {
    let i = Input::new("2024-01-15T08:00:00-05:00 rest");
    assert_eq!(i.run(ion_timestamp).unwrap(), "2024-01-15T08:00:00-05:00");
}

#[test]
fn test_unknown_offset() {
    let i = Input::new("2024-01-15T12:00:00-00:00 rest");
    assert_eq!(i.run(ion_timestamp).unwrap(), "2024-01-15T12:00:00-00:00");
}

#[test]
fn test_not_a_timestamp() {
    let i = Input::new("hello rest");
    assert!(i.run(ion_timestamp).is_err());
}
