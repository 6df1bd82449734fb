use polars_jni_bridge::transfer::{
    booleans_from_managed, new_boolean_series, new_double_series, new_float_series,
    new_int_series, new_list_series, new_long_series, new_str_series,
};
use polars_jni_bridge::value::{Column, Value};

#[test]
fn boolean_array_becomes_matching_column() {
    let column = new_boolean_series("flags".to_string(), &[1, 0, 1]);
    assert_eq!(column.name, "flags");
    assert_eq!(column.values.len(), 3);
    assert_eq!(
        column.values,
        vec![Value::Boolean(true), Value::Boolean(false), Value::Boolean(true)]
    );
}

#[test]
fn only_the_true_encoding_reads_true() {
    assert_eq!(booleans_from_managed(&[0, 1, 2, 255]), vec![false, true, false, false]);
    assert!(booleans_from_managed(&[]).is_empty());
}

#[test]
fn numeric_arrays_copy_element_for_element() {
    assert_eq!(
        new_int_series("i".to_string(), &[3, -4]).values,
        vec![Value::Int32(3), Value::Int32(-4)]
    );
    assert_eq!(
        new_long_series("l".to_string(), &[i64::MIN]).values,
        vec![Value::Int64(i64::MIN)]
    );
    assert_eq!(
        new_float_series("f".to_string(), &[0.5f32.to_bits()]).values,
        vec![Value::Float32(0.5f32.to_bits())]
    );
    assert_eq!(
        new_double_series("d".to_string(), &[(-1.25f64).to_bits()]).values,
        vec![Value::Float64((-1.25f64).to_bits())]
    );
    assert!(new_int_series("e".to_string(), &[]).values.is_empty());
}

#[test]
fn strings_become_string_cells() {
    let column = new_str_series("s".to_string(), vec!["a".to_string(), "bc".to_string()]);
    assert_eq!(column.values, vec![Value::Str("a".to_string()), Value::Str("bc".to_string())]);
}

#[test]
fn child_columns_become_list_cells() {
    let first = Column { name: "x".to_string(), values: vec![Value::Int32(1), Value::Int32(2)] };
    let second = Column { name: "y".to_string(), values: Vec::new() };
    let column = new_list_series("lists".to_string(), vec![first, second]);
    assert_eq!(column.name, "lists");
    assert_eq!(
        column.values,
        vec![Value::List(vec![Value::Int32(1), Value::Int32(2)]), Value::List(Vec::new())]
    );
}
