use gen_bin_project::alias::{alias_text, decimal_text};

#[test]
fn decimal_text_writes_digits() {
    assert_eq!(decimal_text(0), "0");
    assert_eq!(decimal_text(7), "7");
    assert_eq!(decimal_text(9), "9");
    assert_eq!(decimal_text(10), "10");
    assert_eq!(decimal_text(42), "42");
    assert_eq!(decimal_text(100), "100");
    assert_eq!(decimal_text(1234567890), "1234567890");
    assert_eq!(decimal_text(usize::MAX), usize::MAX.to_string());
}

#[test]
fn alias_is_dep_and_the_position() {
    assert_eq!(alias_text(0), "dep0");
    assert_eq!(alias_text(1), "dep1");
    assert_eq!(alias_text(12), "dep12");
    assert_eq!(alias_text(305), "dep305");
}
