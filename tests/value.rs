use polars_jni_bridge::value::{
    convert, convert_row, decimal_fits, instant_parts, Column, Managed, TimeUnit, Value,
};

#[test]
fn small_integers_box_as_integer() {
    assert_eq!(convert(Value::Int8(-7)), Managed::Integer(-7));
    assert_eq!(convert(Value::Int16(300)), Managed::Integer(300));
    assert_eq!(convert(Value::Int32(i32::MIN)), Managed::Integer(i32::MIN));
    assert_eq!(convert(Value::UInt8(255)), Managed::Integer(255));
    assert_eq!(convert(Value::UInt16(65535)), Managed::Integer(65535));
}

#[test]
fn unsigned_32_reinterprets_as_signed() {
    assert_eq!(convert(Value::UInt32(u32::MAX)), Managed::Integer(-1));
    assert_eq!(convert(Value::UInt32(7)), Managed::Integer(7));
}

#[test]
fn unsigned_64_above_signed_max_wraps_negative() {
    assert_eq!(convert(Value::UInt64(u64::MAX)), Managed::Long(-1));
    assert_eq!(convert(Value::Int64(i64::MAX)), Managed::Long(i64::MAX));
}

#[test]
fn round_trip_reads_back_equal_values() {
    match convert(Value::UInt32(4_000_000_000)) {
        Managed::Integer(i) => assert_eq!(i as u32, 4_000_000_000),
        other => panic!("unexpected {other:?}"),
    }
    match convert(Value::Float64(2.5f64.to_bits())) {
        Managed::Double(bits) => assert_eq!(f64::from_bits(bits), 2.5),
        other => panic!("unexpected {other:?}"),
    }
    assert_eq!(convert(Value::Str("héllo".to_string())), Managed::Str("héllo".to_string()));
    assert_eq!(convert(Value::Binary(vec![0, 255, 7])), Managed::Bytes(vec![0, 255, 7]));
    assert_eq!(convert(Value::Boolean(true)), Managed::Boolean(true));
    assert_eq!(convert(Value::Null), Managed::Null);
}

#[test]
fn floats_keep_their_bits() {
    assert_eq!(convert(Value::Float32(1.5f32.to_bits())), Managed::Float(1.5f32.to_bits()));
}

#[test]
fn date_and_time_keep_their_counts() {
    assert_eq!(convert(Value::Date(-1)), Managed::Date(-1));
    assert_eq!(convert(Value::Time(3_600_000_000_000)), Managed::Time(3_600_000_000_000));
}

#[test]
fn millisecond_timestamp_is_one_millisecond_after_epoch() {
    assert_eq!(instant_parts(1, TimeUnit::Milliseconds), (0, 1_000_000));
    assert_eq!(
        convert(Value::Datetime(1, TimeUnit::Milliseconds, None)),
        Managed::Instant(0, 1_000_000)
    );
}

#[test]
fn datetime_scaling_per_unit() {
    assert_eq!(instant_parts(1_500_000_000, TimeUnit::Nanoseconds), (1, 500_000_000));
    assert_eq!(instant_parts(2_000_001, TimeUnit::Microseconds), (2, 1_000));
    assert_eq!(instant_parts(-1_500, TimeUnit::Milliseconds), (-1, -500_000_000));
    assert_eq!(instant_parts(i64::MAX, TimeUnit::Milliseconds), (9_223_372_036_854_775, 807_000_000));
    assert_eq!(instant_parts(i64::MIN, TimeUnit::Nanoseconds), (-9_223_372_036, -854_775_808));
}

#[test]
fn zoned_datetime_keeps_zone() {
    assert_eq!(
        convert(Value::Datetime(2_500, TimeUnit::Microseconds, Some("Europe/Paris".to_string()))),
        Managed::Zoned(0, 2_500_000, "Europe/Paris".to_string())
    );
}

#[test]
fn decimal_is_handed_on_for_narrowing() {
    assert_eq!(convert(Value::Decimal(12345, 10, 2)), Managed::DecimalDouble(12345, 2));
}

#[test]
fn lists_and_arrays_convert_element_wise() {
    let list = Value::List(vec![Value::Int8(1), Value::Null, Value::UInt32(u32::MAX)]);
    assert_eq!(
        convert(list),
        Managed::List(vec![Managed::Integer(1), Managed::Null, Managed::Integer(-1)])
    );
    let array = Value::Array(vec![Value::Int64(5), Value::Int64(6)], 2);
    assert_eq!(convert(array), Managed::List(vec![Managed::Long(5), Managed::Long(6)]));
    assert_eq!(convert(Value::List(Vec::new())), Managed::List(Vec::new()));
}

#[test]
fn struct_row_converts_to_named_entries() {
    let a = Column { name: "a".to_string(), values: vec![Value::Int32(5)] };
    let b = Column { name: "b".to_string(), values: vec![Value::Str("x".to_string())] };
    assert_eq!(
        convert(Value::Struct(0, vec![a, b])),
        Managed::Record(vec![
            ("a".to_string(), Managed::Integer(5)),
            ("b".to_string(), Managed::Str("x".to_string())),
        ])
    );
}

#[test]
fn struct_reads_only_its_row() {
    let a = Column {
        name: "a".to_string(),
        values: vec![Value::Int32(1), Value::Int32(2), Value::Int32(3)],
    };
    let short = Column { name: "s".to_string(), values: vec![Value::Boolean(true)] };
    assert_eq!(
        convert(Value::Struct(2, vec![a, short])),
        Managed::Record(vec![
            ("a".to_string(), Managed::Integer(3)),
            ("s".to_string(), Managed::Null),
        ])
    );
}

#[test]
fn row_converts_cell_by_cell() {
    let row = vec![Value::Int16(2), Value::Str("y".to_string()), Value::Null];
    assert_eq!(
        convert_row(row),
        vec![Managed::Integer(2), Managed::Str("y".to_string()), Managed::Null]
    );
}

#[test]
fn decimal_outside_the_96_bit_type_becomes_null() {
    assert_eq!(convert(Value::Decimal(1, 38, 29)), Managed::Null);
    assert_eq!(convert(Value::Decimal(1i128 << 96, 38, 0)), Managed::Null);
    assert_eq!(convert(Value::Decimal(-(1i128 << 96), 38, 0)), Managed::Null);
    assert_eq!(
        convert(Value::Decimal((1i128 << 96) - 1, 38, 28)),
        Managed::DecimalDouble((1i128 << 96) - 1, 28)
    );
}

#[test]
fn decimal_fits_matches_the_decimal_type() {
    assert!(decimal_fits(0, 28));
    assert!(!decimal_fits(0, 29));
    assert!(!decimal_fits(i128::MAX, 0));
}
