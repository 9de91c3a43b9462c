use object_syncer::text::{
    decimal_text, same_optional_text, same_text, signed_decimal_text, split_text, text_before,
    trim_text,
};

#[test]
fn numbers_are_written_in_decimal() {
    assert_eq!(decimal_text(0), "0");
    assert_eq!(decimal_text(10), "10");
    assert_eq!(decimal_text(u64::MAX), u64::MAX.to_string());
    assert_eq!(signed_decimal_text(i64::MIN), i64::MIN.to_string());
    assert_eq!(signed_decimal_text(-1), "-1");
    assert_eq!(signed_decimal_text(42), "42");
}

#[test]
fn text_is_split_at_every_separator() {
    assert_eq!(split_text("a,b", ','), vec!["a", "b"]);
    assert_eq!(split_text("", ','), vec![""]);
    assert_eq!(split_text(",a,", ','), vec!["", "a", ""]);
    assert_eq!(split_text("ns/na\u{fc}me", '/'), vec!["ns", "na\u{fc}me"]);
}

#[test]
fn white_space_is_trimmed() {
    assert_eq!(trim_text(" \t\u{a0}a b\u{3000}\n"), "a b");
    assert_eq!(trim_text("   "), "");
    assert_eq!(trim_text("a"), "a");
}

#[test]
fn texts_are_compared_by_bytes() {
    for (a, b) in [("", "a"), ("a", "b"), ("a", "ab"), ("Z", "a"), ("z", "\u{fc}")] {
        assert!(text_before(a, b));
        assert!(!text_before(b, a));
        assert!(!text_before(a, a));
        assert!(a < b);
    }
    assert!(same_text("x", "x") && !same_text("x", "xy"));
    assert!(same_optional_text(&None, &None));
    assert!(!same_optional_text(&None, &Some("".to_string())));
}
