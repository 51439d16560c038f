use partiql_winnow_parser::eval::expr::datetime_functions::{
    datetime_to_unix_timestamp, unix_timestamp_to_datetime, EvalExprUnixTimestamp,
    EvalExprUnixTimestampWithArgs, EvalFnCurrentTime, EvalFnCurrentTimestamp, EvalFnFromUnixtime,
    EvalFnUnixTimestamp, EvalExprCurrentTime, EvalExprCurrentTimestamp, EvalExprFromUnixtime,
    EvalExprUnixTimestampNoArgs,
};
use partiql_winnow_parser::eval::expr::BindError;
use partiql_winnow_parser::value::{Date, DateTime, Time, Value};
use rust_decimal::Decimal;

fn ts_tz(year: i32, month: u8, day: u8, hour: u8, minute: u8, second: u8, nano: u32, offset_minutes: i32) -> DateTime {
    DateTime::TimestampWithTz(
        Date { year, month, day },
        Time { hour, minute, second, nanosecond: nano },
        offset_minutes * 60,
    )
}

#[test]
fn test_current_time_no_args() {
    let result = EvalFnCurrentTime.bind::<true>(vec![]);
    assert!(result.is_ok());
}

#[test]
fn test_current_time_with_args_fails() {
    let result = EvalFnCurrentTime.bind::<true>(vec![Value::Null]);
    assert!(matches!(result, Err(BindError::ArgNumMismatch { .. })));
}

#[test]
fn test_current_timestamp_no_args() {
    let result = EvalFnCurrentTimestamp.bind::<true>(vec![]);
    assert!(result.is_ok());
}

#[test]
fn test_current_timestamp_with_args_fails() {
    let result = EvalFnCurrentTimestamp.bind::<true>(vec![Value::Null]);
    assert!(matches!(result, Err(BindError::ArgNumMismatch { .. })));
}

#[test]
fn test_unix_timestamp_binding_no_args() {
    let result = EvalFnUnixTimestamp.bind::<true>(vec![]);
    assert!(result.is_ok());
}

#[test]
fn test_unix_timestamp_no_args() {
    let now = ts_tz(2024, 6, 15, 12, 30, 45, 250_000_000, 0);
    match EvalExprUnixTimestampNoArgs.evaluate(&now) {
        Value::Integer(_) | Value::Decimal(_) => {}
        other => panic!("Expected Integer or Decimal, got {:?}", other),
    }
}

#[test]
fn test_unix_timestamp_binding_one_arg() {
    let now = ts_tz(2020, 1, 1, 0, 0, 0, 0, 0);
    let result = EvalFnUnixTimestamp.bind::<true>(vec![Value::DateTime(Box::new(now))]);
    assert!(matches!(result, Ok(EvalExprUnixTimestamp::WithArgs(_))));
}

#[test]
fn test_unix_timestamp_with_too_many_args_fails() {
    let result = EvalFnUnixTimestamp.bind::<true>(vec![Value::Null, Value::Null]);
    match result {
        Err(BindError::ArgNumMismatch { expected, found }) => {
            assert_eq!(expected, vec![0, 1]);
            assert_eq!(found, 2);
        }
        other => panic!("expected an arity error, got {:?}", other),
    }
}

#[test]
fn test_current_time_evaluation() {
    let now = ts_tz(2024, 6, 15, 12, 30, 45, 0, 0);
    let result = EvalExprCurrentTime.evaluate(&now);
    match result {
        Value::DateTime(dt) => match *dt {
            DateTime::TimeWithTz(t, 0) => {
                assert_eq!((t.hour, t.minute, t.second), (12, 30, 45));
            }
            other => panic!("Expected TimeWithTz, got {:?}", other),
        },
        other => panic!("Expected DateTime, got {:?}", other),
    }
}

#[test]
fn test_current_timestamp_evaluation() {
    let now = ts_tz(2024, 6, 15, 12, 30, 45, 0, 0);
    let result = EvalExprCurrentTimestamp.evaluate(&now);
    match result {
        Value::DateTime(dt) => assert!(matches!(*dt, DateTime::TimestampWithTz(..))),
        other => panic!("Expected DateTime, got {:?}", other),
    }
}

#[test]
fn test_unix_timestamp_conversion() {
    let dt = ts_tz(2020, 1, 1, 0, 0, 0, 0, 0);
    match datetime_to_unix_timestamp(&dt) {
        Value::Integer(ts) => assert_eq!(ts, 1577836800),
        other => panic!("Expected Integer, got {:?}", other),
    }
    let dt_with_fraction = ts_tz(2020, 1, 1, 0, 0, 0, 100_000_000, 0);
    match datetime_to_unix_timestamp(&dt_with_fraction) {
        Value::Decimal(_) => {}
        other => panic!("Expected Decimal, got {:?}", other),
    }
}

#[test]
fn test_unix_timestamp_before_epoch() {
    let dt = ts_tz(1969, 1, 1, 0, 0, 0, 0, 0);
    match datetime_to_unix_timestamp(&dt) {
        Value::Integer(ts) => {
            assert!(ts < 0);
            assert_eq!(ts, -31536000);
        }
        other => panic!("Expected Integer, got {:?}", other),
    }
}

#[test]
fn test_unix_timestamp_date_type() {
    let dt = DateTime::Date(Date { year: 2020, month: 1, day: 1 });
    match datetime_to_unix_timestamp(&dt) {
        Value::Integer(ts) => assert_eq!(ts, 1577836800),
        other => panic!("Expected Integer, got {:?}", other),
    }
}

#[test]
fn test_unix_timestamp_timestamp_without_tz() {
    let dt = DateTime::Timestamp(
        Date { year: 2020, month: 1, day: 1 },
        Time { hour: 0, minute: 0, second: 0, nanosecond: 0 },
    );
    match datetime_to_unix_timestamp(&dt) {
        Value::Integer(ts) => assert_eq!(ts, 1577836800),
        other => panic!("Expected Integer, got {:?}", other),
    }
}

#[test]
fn test_unix_timestamp_time_types_return_missing() {
    let t = Time { hour: 12, minute: 30, second: 45, nanosecond: 0 };
    assert!(matches!(datetime_to_unix_timestamp(&DateTime::Time(t)), Value::Missing));
    assert!(matches!(datetime_to_unix_timestamp(&DateTime::TimeWithTz(t, 0)), Value::Missing));
}

#[test]
fn test_unix_timestamp_decimal_precision() {
    let cases: [(u32, Decimal); 3] = [
        (100_000_000, Decimal::from(1577836800) + Decimal::new(1, 1)),
        (1, Decimal::from(1577836800) + Decimal::new(1, 9)),
        (999_999_999, Decimal::from(1577836800) + Decimal::new(999_999_999, 9)),
    ];
    for (nanos, expected) in cases {
        match datetime_to_unix_timestamp(&ts_tz(2020, 1, 1, 0, 0, 0, nanos, 0)) {
            Value::Decimal(dec) => assert_eq!(dec, expected),
            other => panic!("Expected Decimal, got {:?}", other),
        }
    }
}

#[test]
fn test_unix_timestamp_with_args_evaluation() {
    let dt = ts_tz(2020, 1, 1, 0, 0, 0, 0, 0);
    let expr = EvalExprUnixTimestampWithArgs { arg: Value::DateTime(Box::new(dt)) };
    match expr.evaluate() {
        Value::Integer(ts) => assert_eq!(ts, 1577836800),
        other => panic!("Expected Integer, got {:?}", other),
    }
}

#[test]
fn test_unix_timestamp_with_non_datetime_returns_missing() {
    let expr = EvalExprUnixTimestampWithArgs { arg: Value::String("not a timestamp".to_string()) };
    assert!(matches!(expr.evaluate(), Value::Missing));
    let expr2 = EvalExprUnixTimestampWithArgs { arg: Value::Integer(42) };
    assert!(matches!(expr2.evaluate(), Value::Missing));
}

#[test]
fn test_unix_timestamp_timezone_handling() {
    match datetime_to_unix_timestamp(&ts_tz(2020, 1, 1, 5, 30, 0, 0, 330)) {
        Value::Integer(ts) => assert_eq!(ts, 1577836800),
        other => panic!("Expected Integer, got {:?}", other),
    }
    match datetime_to_unix_timestamp(&ts_tz(2019, 12, 31, 16, 0, 0, 0, -480)) {
        Value::Integer(ts) => assert_eq!(ts, 1577836800),
        other => panic!("Expected Integer, got {:?}", other),
    }
}

#[test]
fn test_unix_timestamp_2024_june_15() {
    match datetime_to_unix_timestamp(&ts_tz(2024, 6, 15, 12, 30, 45, 0, 0)) {
        Value::Integer(ts) => assert_eq!(ts, 1718454645),
        other => panic!("Expected Integer, got {:?}", other),
    }
}

fn unix_parts(dt: &DateTime) -> (i64, u32) {
    match dt {
        DateTime::TimestampWithTz(_, t, 0) => match datetime_to_unix_timestamp(dt) {
            Value::Integer(s) => (s, t.nanosecond),
            Value::Decimal(d) => (d.floor().try_into().unwrap(), t.nanosecond),
            other => panic!("unexpected {:?}", other),
        },
        other => panic!("Expected TimestampWithTz, got {:?}", other),
    }
}

#[test]
fn test_from_unixtime_zero() {
    let dt = unix_timestamp_to_datetime(0, 0);
    assert_eq!(unix_parts(&dt), (0, 0));
    match dt {
        DateTime::TimestampWithTz(d, t, 0) => {
            assert_eq!((d.year, d.month, d.day), (1970, 1, 1));
            assert_eq!((t.hour, t.minute, t.second), (0, 0, 0));
        }
        other => panic!("Expected TimestampWithTz, got {:?}", other),
    }
}

#[test]
fn test_from_unixtime_positive() {
    assert_eq!(unix_parts(&unix_timestamp_to_datetime(1577836800, 0)), (1577836800, 0));
}

#[test]
fn test_from_unixtime_negative() {
    let dt = unix_timestamp_to_datetime(-1, 0);
    assert_eq!(unix_parts(&dt), (-1, 0));
    match dt {
        DateTime::TimestampWithTz(d, t, 0) => {
            assert_eq!((d.year, d.month, d.day), (1969, 12, 31));
            assert_eq!((t.hour, t.minute, t.second), (23, 59, 59));
        }
        other => panic!("Expected TimestampWithTz, got {:?}", other),
    }
}

#[test]
fn test_from_unixtime_with_fractional_seconds() {
    assert_eq!(unix_parts(&unix_timestamp_to_datetime(0, 100_000_000)), (0, 100_000_000));
}

#[test]
fn test_from_unixtime_with_milliseconds() {
    assert_eq!(unix_parts(&unix_timestamp_to_datetime(0, 1_000_000)), (0, 1_000_000));
}

#[test]
fn test_from_unixtime_negative_with_fractional() {
    assert_eq!(unix_parts(&unix_timestamp_to_datetime(-1, 900_000_000)), (-1, 900_000_000));
}

#[test]
fn test_from_unixtime_function_binding() {
    assert!(matches!(EvalFnFromUnixtime.bind::<true>(vec![]), Err(BindError::ArgNumMismatch { .. })));
    assert!(EvalFnFromUnixtime.bind::<true>(vec![Value::Integer(0)]).is_ok());
    assert!(matches!(
        EvalFnFromUnixtime.bind::<true>(vec![Value::Integer(0), Value::Integer(1)]),
        Err(BindError::ArgNumMismatch { .. })
    ));
}

#[test]
fn test_from_unixtime_evaluation_integer() {
    let expr = EvalExprFromUnixtime { arg: Value::Integer(1577836800) };
    match expr.evaluate() {
        Some(Value::DateTime(dt)) => assert_eq!(unix_parts(&dt), (1577836800, 0)),
        other => panic!("Expected DateTime, got {:?}", other),
    }
}

#[test]
fn test_from_unixtime_evaluation_decimal() {
    // -0.1 seconds: one second before the epoch plus 900 ms.
    let expr = EvalExprFromUnixtime { arg: Value::Decimal(Decimal::new(-1, 1)) };
    match expr.evaluate() {
        Some(Value::DateTime(dt)) => assert_eq!(unix_parts(&dt), (-1, 900_000_000)),
        other => panic!("Expected DateTime, got {:?}", other),
    }
    let other = EvalExprFromUnixtime { arg: Value::Boolean(true) };
    assert!(matches!(other.evaluate(), Some(Value::Missing)));
}

#[test]
fn test_from_unixtime_decimal_overflow_has_no_result() {
    let expr = EvalExprFromUnixtime { arg: Value::Decimal(Decimal::MAX) };
    assert!(expr.evaluate().is_none());
}

#[test]
fn test_from_unixtime_out_of_range_is_epoch() {
    assert_eq!(unix_parts(&unix_timestamp_to_datetime(i64::MAX, 0)), (0, 0));
}

#[test]
fn test_from_unixtime_round_trip() {
    let original = ts_tz(2020, 1, 1, 0, 0, 0, 0, 0);
    let seconds = match datetime_to_unix_timestamp(&original) {
        Value::Integer(s) => s,
        other => panic!("Expected Integer, got {:?}", other),
    };
    let recovered = unix_timestamp_to_datetime(seconds, 0);
    assert_eq!(unix_parts(&recovered), unix_parts(&original));
}
