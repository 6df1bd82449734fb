use polars_jni_bridge::bridge::{format_error_chain, format_nested_error, trim_end_string};

#[test]
fn nested_error_renders_each_cause_on_its_own_line() {
    let error = anyhow::Error::msg("C").context("B").context("A");
    assert_eq!(format_nested_error(&error), "A\n  Caused by: B\n  Caused by: C");
}

#[test]
fn single_error_has_no_cause_lines() {
    let error = anyhow::Error::msg("disk full");
    assert_eq!(format_nested_error(&error), "disk full");
}

#[test]
fn error_chain_drops_trailing_white_space_only() {
    let messages = vec!["  top ".to_string(), "inner\t".to_string()];
    assert_eq!(format_error_chain(&messages), "  top \n  Caused by: inner");
}

#[test]
fn empty_error_chain_renders_empty() {
    let messages: Vec<String> = Vec::new();
    assert_eq!(format_error_chain(&messages), "");
}

#[test]
fn trim_end_removes_unicode_white_space() {
    assert_eq!(trim_end_string("abc \u{3000}\u{a0}\n"), "abc");
    assert_eq!(trim_end_string(" \t "), "");
    assert_eq!(trim_end_string("x y"), "x y");
}

#[test]
fn nested_error_text_depends_on_the_error() {
    let a = anyhow::Error::msg("inner").context("outer");
    let b = anyhow::Error::msg("other");
    assert_eq!(format_nested_error(&a), "outer\n  Caused by: inner");
    assert_ne!(format_nested_error(&a), format_nested_error(&b));
}
