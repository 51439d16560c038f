use partiql_winnow_parser::ast::FloatLiteral;
use partiql_winnow_parser::literal::ion::number::{ion_number, IonNumber};

/// An input and a position in it, as a parse moves through it.
struct Input {
    s: Vec<char>,
    p: std::cell::Cell<usize>,
}

impl Input {
    fn new(text: &str) -> Self {
        Input { s: text.chars().collect(), p: std::cell::Cell::new(0) }
    }

    /// Run a scanner at the current position; on success, move past what it read.
    fn run<T, E>(&self, f: fn(&[char], usize) -> Result<(T, usize), E>) -> Result<T, E> {
        let (v, q) = f(&self.s, self.p.get())?;
        self.p.set(q);
        Ok(v)
    }

    fn rest(&self) -> String {
        self.s[self.p.get()..].iter().collect()
    }
}

impl PartialEq<&str> for Input {
    fn eq(&self, other: &&str) -> bool {
        self.rest() == *other
    }
}

impl std::fmt::Debug for Input {
    fn fmt(&self, f: &mut std::fmt::Formatter<'_>) -> std::fmt::Result {
        f.write_str(&format!("{:?}", self.rest()))
    }
}

/// The `f64` a float literal denotes.
fn float_value(f: &FloatLiteral) -> f64 {
    match f {
        FloatLiteral::Nan => f64::NAN,
        FloatLiteral::PosInfinity => f64::INFINITY,
        FloatLiteral::NegInfinity => f64::NEG_INFINITY,
        FloatLiteral::Finite(t) => t.parse().unwrap(),
    }
}

// Integers
#[test]
fn test_int_decimal() {
    let i = Input::new("42 rest");
    assert_eq!(i.run(ion_number).unwrap(), IonNumber::Integer(42));
    assert_eq!(i, " rest");
}

#[test]
fn test_int_negative() {
    let i = Input::new("-1 rest");
    assert_eq!(i.run(ion_number).unwrap(), IonNumber::Integer(-1));
}

#[test]
fn test_int_zero() {
    let i = Input::new("0 rest");
    assert_eq!(i.run(ion_number).unwrap(), IonNumber::Integer(0));
}

#[test]
fn test_int_underscore() {
    let i = Input::new("1_000_000 rest");
    assert_eq!(i.run(ion_number).unwrap(), IonNumber::Integer(1_000_000));
}

#[test]
fn test_int_hex() {
    let i = Input::new("0xFACE rest");
    assert_eq!(i.run(ion_number).unwrap(), IonNumber::Integer(0xFACE));
}

#[test]
fn test_int_binary() {
    let i = Input::new("0b1010 rest");
    assert_eq!(i.run(ion_number).unwrap(), IonNumber::Integer(0b1010));
}

// Decimals
#[test]
fn test_decimal_simple() {
    let i = Input::new("3.14 rest");
    if let IonNumber::Decimal(d) = i.run(ion_number).unwrap() {
        assert_eq!(d.to_string(), "3.14");
    } else {
        panic!("Expected Decimal");
    }
}

#[test]
fn test_decimal_trailing_dot() {
    let i = Input::new("123. rest");
    if let IonNumber::Decimal(d) = i.run(ion_number).unwrap() {
        assert_eq!(d.to_string(), "123.0");
    } else {
        panic!("Expected Decimal");
    }
}

// Floats
#[test]
fn test_float_simple() {
    let i = Input::new("1.0e0 rest");
    if let IonNumber::Float(f) = i.run(ion_number).unwrap() {
        assert!((float_value(&f) - 1.0).abs() < f64::EPSILON);
    } else {
        panic!("Expected Float");
    }
}

#[test]
fn test_float_scientific() {
    let i = Input::new("6.022e23 rest");
    if let IonNumber::Float(f) = i.run(ion_number).unwrap() {
        assert!((float_value(&f) - 6.022e23).abs() < 1e18);
    } else {
        panic!("Expected Float");
    }
}

#[test]
fn test_float_nan() {
    let i = Input::new("nan rest");
    if let IonNumber::Float(f) = i.run(ion_number).unwrap() {
        assert!(float_value(&f).is_nan());
    } else {
        panic!("Expected Float");
    }
}

#[test]
fn test_float_pos_inf() {
    let i = Input::new("+inf rest");
    assert_eq!(i.run(ion_number).unwrap(), IonNumber::Float(FloatLiteral::PosInfinity));
}

#[test]
fn test_float_neg_inf() {
    let i = Input::new("-inf rest");
    assert_eq!(
        i.run(ion_number).unwrap(),
        IonNumber::Float(FloatLiteral::NegInfinity)
    );
}
