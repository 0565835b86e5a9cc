use active_window_stream::text::{str_eq, u32_to_decimal};

#[test]
fn decimal_rendering() {
    assert_eq!(u32_to_decimal(0), "0");
    assert_eq!(u32_to_decimal(7), "7");
    assert_eq!(u32_to_decimal(10), "10");
    assert_eq!(u32_to_decimal(12345), "12345");
    assert_eq!(u32_to_decimal(u32::MAX), "4294967295");
}

#[test]
fn string_equality() {
    assert!(str_eq("", ""));
    assert!(str_eq("x11", "x11"));
    assert!(!str_eq("x11", "x12"));
    assert!(!str_eq("x11", "x1"));
    assert!(str_eq("caf\u{e9}", "caf\u{e9}"));
    assert!(!str_eq("caf\u{e9}", "cafe"));
}
