use polars_jni_bridge::row::{get_n_rows, Frame, RowIterator};
use polars_jni_bridge::value::{Column, Value};

fn frame_of_three() -> Frame {
    let a = Column {
        name: "a".to_string(),
        values: vec![Value::Int32(1), Value::Int32(2), Value::Int32(3)],
    };
    let b = Column {
        name: "b".to_string(),
        values: vec![
            Value::Str("x".to_string()),
            Value::Str("y".to_string()),
            Value::Str("z".to_string()),
        ],
    };
    Frame::from_columns(vec![a, b]).unwrap()
}

#[test]
fn cursor_yields_limit_rows_then_none_for_good() {
    let mut it = RowIterator::new(frame_of_three(), Some(2));
    assert_eq!(it.advance(), Some(vec![Value::Int32(1), Value::Str("x".to_string())]));
    assert_eq!(it.advance(), Some(vec![Value::Int32(2), Value::Str("y".to_string())]));
    assert_eq!(it.advance(), None);
    assert_eq!(it.advance(), None);
    assert_eq!(it.advance(), None);
}

#[test]
fn cursor_without_limit_yields_every_row() {
    let mut it = RowIterator::new(frame_of_three(), None);
    let mut count = 0;
    while let Some(row) = it.advance() {
        assert_eq!(row.len(), 2);
        count += 1;
    }
    assert_eq!(count, 3);
    assert_eq!(it.advance(), None);
}

#[test]
fn limit_above_height_is_capped() {
    let mut it = RowIterator::new(frame_of_three(), Some(10));
    for _ in 0..3 {
        assert!(it.advance().is_some());
    }
    assert_eq!(it.advance(), None);
}

#[test]
fn zero_limit_yields_nothing() {
    let mut it = RowIterator::new(frame_of_three(), Some(0));
    assert_eq!(it.advance(), None);
}

#[test]
fn cursor_keeps_column_names() {
    let it = RowIterator::new(frame_of_three(), None);
    assert_eq!(it.names(), &vec!["a".to_string(), "b".to_string()]);
    assert_eq!(it.end(), 3);
}

#[test]
fn empty_frame_yields_nothing() {
    let mut it = RowIterator::new(Frame::from_columns(Vec::new()).unwrap(), None);
    assert_eq!(it.advance(), None);
}

#[test]
fn frame_refuses_ragged_columns() {
    let a = Column { name: "a".to_string(), values: vec![Value::Null] };
    let b = Column { name: "b".to_string(), values: Vec::new() };
    assert!(Frame::from_columns(vec![a, b]).is_none());
}

#[test]
fn frame_reports_its_shape() {
    let f = frame_of_three();
    assert_eq!(f.width(), 2);
    assert_eq!(f.height(), 3);
}

#[test]
fn row_limit_from_managed_count() {
    assert_eq!(get_n_rows(5), Some(5));
    assert_eq!(get_n_rows(0), None);
    assert_eq!(get_n_rows(-3), None);
}
