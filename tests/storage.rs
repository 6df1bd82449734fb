use polars_jni_bridge::options::{
    parse_keep_strategy, row_index_offset, subset_or_all, BinaryOperator, KeepStrategy,
    UnaryOperator,
};
use polars_jni_bridge::storage::{
    ensure_write_mode, normalized_url_path, parse_write_mode, same_text, PathError, WriteModes,
};

#[test]
fn overwrite_flag_is_exact() {
    assert_eq!(parse_write_mode("Overwrite"), WriteModes::Overwrite);
    assert_eq!(parse_write_mode("overwrite"), WriteModes::ErrorIfExists);
    assert_eq!(parse_write_mode(""), WriteModes::ErrorIfExists);
    assert_eq!(parse_write_mode("ErrorIfExists"), WriteModes::ErrorIfExists);
}

#[test]
fn existing_target_is_refused_only_without_overwrite() {
    assert_eq!(
        ensure_write_mode(true, "s3://bucket/t", WriteModes::ErrorIfExists),
        Err(PathError::FileAlreadyExists("s3://bucket/t".to_string()))
    );
    assert_eq!(ensure_write_mode(true, "s3://bucket/t", WriteModes::Overwrite), Ok(()));
    assert_eq!(ensure_write_mode(false, "s3://bucket/t", WriteModes::ErrorIfExists), Ok(()));
    assert_eq!(ensure_write_mode(false, "s3://bucket/t", WriteModes::Overwrite), Ok(()));
}

#[test]
fn path_error_messages() {
    assert_eq!(PathError::Generic("boom".to_string()).message(), "Fatal error: boom");
    assert_eq!(
        PathError::InvalidTableLocation("::".to_string()).message(),
        "Cannot infer storage location from: ::"
    );
    assert_eq!(
        PathError::FileAlreadyExists("file:///t".to_string()).message(),
        "File already exists at the given location: file:///t"
    );
}

#[test]
fn same_text_compares_characters() {
    assert!(same_text("äb", "äb"));
    assert!(!same_text("ab", "abc"));
    assert!(!same_text("ab", "ac"));
    assert!(same_text("", ""));
}

#[test]
fn keep_strategy_flags() {
    assert_eq!(parse_keep_strategy("none"), KeepStrategy::DropAll);
    assert_eq!(parse_keep_strategy("first"), KeepStrategy::First);
    assert_eq!(parse_keep_strategy("last"), KeepStrategy::Last);
    assert_eq!(parse_keep_strategy("any"), KeepStrategy::Any);
    assert_eq!(parse_keep_strategy("First"), KeepStrategy::Any);
}

#[test]
fn empty_subset_means_all_columns() {
    assert_eq!(subset_or_all(Vec::new()), None);
    assert_eq!(subset_or_all(vec!["a".to_string()]), Some(vec!["a".to_string()]));
}

#[test]
fn binary_operator_codes() {
    assert_eq!(BinaryOperator::from_i32(0), Some(BinaryOperator::EqualTo));
    assert_eq!(BinaryOperator::from_i32(7), Some(BinaryOperator::And));
    assert_eq!(BinaryOperator::from_i32(12), Some(BinaryOperator::Modulus));
    assert_eq!(BinaryOperator::from_i32(13), None);
    assert_eq!(BinaryOperator::from_i32(-1), None);
}

#[test]
fn unary_operator_codes() {
    assert_eq!(UnaryOperator::from_i32(0), Some(UnaryOperator::Not));
    assert_eq!(UnaryOperator::from_i32(4), Some(UnaryOperator::IsNotNan));
    assert_eq!(UnaryOperator::from_i32(8), Some(UnaryOperator::Cast));
    assert_eq!(UnaryOperator::from_i32(9), None);
    assert!(UnaryOperator::IsNull.is_applicable());
    assert!(!UnaryOperator::Between.is_applicable());
}

#[test]
fn row_index_offset_clamps_at_zero() {
    assert_eq!(row_index_offset(5), 5);
    assert_eq!(row_index_offset(0), 0);
    assert_eq!(row_index_offset(-9), 0);
}

#[test]
fn url_paths_lose_trailing_slashes_except_for_files() {
    assert_eq!(normalized_url_path("file", "/tmp/t/"), None);
    assert_eq!(normalized_url_path("s3", "/bucket/table//"), Some("/bucket/table".to_string()));
    assert_eq!(normalized_url_path("s3", "/"), Some("".to_string()));
    assert_eq!(normalized_url_path("gs", "/a/b"), Some("/a/b".to_string()));
}
