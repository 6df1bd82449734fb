use polars_jni_bridge::temporal::{new_date_series, new_datetime_series, new_time_series};
use polars_jni_bridge::value::{TimeUnit, Value};

#[test]
fn dates_become_epoch_days() {
    let values = vec!["1970-01-01".to_string(), "1970-01-02".to_string(), "1969-12-31".to_string()];
    let column = new_date_series("d".to_string(), &values).unwrap();
    assert_eq!(column.name, "d");
    assert_eq!(column.values, vec![Value::Date(0), Value::Date(1), Value::Date(-1)]);
}

#[test]
fn bad_date_is_reported() {
    let values = vec!["2024-01-01".to_string(), "2024-13-01".to_string()];
    assert_eq!(
        new_date_series("d".to_string(), &values).map_err(|e| e.message),
        Err("Failed to parse value `2024-13-01` as date with format `%Y-%m-%d`".to_string())
    );
}

#[test]
fn times_become_nanoseconds_since_midnight() {
    let values = vec!["00:00:01".to_string(), "01:00:00.5".to_string()];
    let column = new_time_series("t".to_string(), &values).unwrap();
    assert_eq!(
        column.values,
        vec![Value::Time(1_000_000_000), Value::Time(3_600_500_000_000)]
    );
}

#[test]
fn bad_time_is_reported() {
    let values = vec!["25:00:00".to_string()];
    assert_eq!(
        new_time_series("t".to_string(), &values).map_err(|e| e.message),
        Err("Failed to parse value `25:00:00` as time with format `%H:%M:%S.f`".to_string())
    );
}

#[test]
fn datetimes_become_milliseconds() {
    let values = vec!["1970-01-01T00:00:01.250".to_string()];
    let column = new_datetime_series("ts".to_string(), &values).unwrap();
    assert_eq!(column.values, vec![Value::Datetime(1_250, TimeUnit::Milliseconds, None)]);
}

#[test]
fn bad_datetime_is_reported() {
    let values = vec!["yesterday".to_string()];
    assert_eq!(
        new_datetime_series("ts".to_string(), &values).map_err(|e| e.message),
        Err("Failed to parse value `yesterday` as datetime with format `%FT%T%.f`".to_string())
    );
}

#[test]
fn first_bad_date_is_the_one_reported() {
    let values = vec!["x".to_string(), "y".to_string()];
    assert_eq!(
        new_date_series("d".to_string(), &values).map_err(|e| e.message),
        Err("Failed to parse value `x` as date with format `%Y-%m-%d`".to_string())
    );
}

#[test]
fn parse_failure_carries_the_parser_cause() {
    let values = vec!["2024-02-30".to_string()];
    let failure = new_date_series("d".to_string(), &values).unwrap_err();
    assert_eq!(failure.message, "Failed to parse value `2024-02-30` as date with format `%Y-%m-%d`");
    assert!(!failure.cause.is_empty());
    assert_ne!(failure.cause, failure.message);
}
