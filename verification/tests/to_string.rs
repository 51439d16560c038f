use partiql_winnow_parser::eval::expr::to_string::{
    convert_partiql_pattern_to_chrono, format_datetime, EvalExprToString, EvalFnToString,
};
use partiql_winnow_parser::eval::expr::BindError;
use partiql_winnow_parser::value::{Date, DateTime, Time, Value};

fn sample() -> DateTime {
    DateTime::TimestampWithTz(
        Date { year: 2024, month: 3, day: 5 },
        Time { hour: 14, minute: 7, second: 9, nanosecond: 123_456_789 },
        0,
    )
}

#[test]
fn test_to_string_with_timestamp() {
    let expr = EvalFnToString
        .bind::<true>(vec![Value::DateTime(Box::new(sample())), Value::String("yyyy-MM-dd".to_string())])
        .unwrap();
    match expr.evaluate() {
        Some(Value::String(s)) => assert_eq!(s, "2024-03-05"),
        other => panic!("expected a string, got {:?}", other),
    }
}

#[test]
fn test_to_string_requires_two_args() {
    let result = EvalFnToString.bind::<true>(vec![Value::Integer(123)]);
    assert!(matches!(result, Err(BindError::ArgNumMismatch { .. })));
}

#[test]
fn test_to_string_no_args_fails() {
    let result = EvalFnToString.bind::<true>(vec![]);
    assert!(matches!(result, Err(BindError::ArgNumMismatch { .. })));
}

#[test]
fn test_to_string_three_args_fails() {
    let result = EvalFnToString.bind::<true>(vec![
        Value::Integer(1),
        Value::String("format".to_string()),
        Value::Integer(3),
    ]);
    assert!(matches!(result, Err(BindError::ArgNumMismatch { .. })));
}

#[test]
fn test_to_string_non_datetime_is_missing() {
    let expr = EvalExprToString { timestamp: Value::Integer(1), format: Value::String("yyyy".to_string()) };
    assert!(matches!(expr.evaluate(), Some(Value::Missing)));
}

#[test]
fn test_format_datetime_full_pattern() {
    let text = format_datetime(&sample(), "yyyy-MM-dd'T'HH:mm:ss.SSS").unwrap();
    assert_eq!(text, "2024-03-05T14:07:09.123");
}

#[test]
fn test_format_date_only() {
    let d = DateTime::Date(Date { year: 2020, month: 12, day: 31 });
    assert_eq!(format_datetime(&d, "dd/MM/yyyy").unwrap(), "31/12/2020");
}

#[test]
fn test_format_date_with_hour_has_no_text() {
    let d = DateTime::Date(Date { year: 2020, month: 12, day: 31 });
    assert!(format_datetime(&d, "HH").is_none());
}

#[test]
fn test_convert_pattern_examples() {
    assert_eq!(convert_partiql_pattern_to_chrono("yyyy-MM-dd"), "%Y-%m-%d");
    assert_eq!(convert_partiql_pattern_to_chrono("'T'"), "T");
    assert_eq!(convert_partiql_pattern_to_chrono("SSS"), "%3f");
}

#[test]
fn test_format_datetime_offset_of_a_day_or_more() {
    let dt = DateTime::TimestampWithTz(
        Date { year: 2024, month: 3, day: 5 },
        Time { hour: 14, minute: 7, second: 9, nanosecond: 0 },
        90_000,
    );
    assert_eq!(format_datetime(&dt, "yyyy-MM-dd HH:mm").unwrap(), "2024-03-05 14:07");
}

#[test]
fn test_format_datetime_offset_within_a_day() {
    let dt = DateTime::TimestampWithTz(
        Date { year: 2024, month: 3, day: 5 },
        Time { hour: 14, minute: 7, second: 9, nanosecond: 0 },
        3_600,
    );
    assert_eq!(format_datetime(&dt, "yyyy-MM-dd HH:mm XXX").unwrap(), "2024-03-05 14:07 +01:00");
}
