use makepad_logic::text::{decimal_string, ends_with_str, starts_with_str, str_equal, trim_str};

#[test]
fn trim_removes_surrounding_whitespace() {
    assert_eq!(trim_str("  \t Compiling foo \n"), "Compiling foo");
    assert_eq!(trim_str("x"), "x");
    assert_eq!(trim_str("   "), "");
    assert_eq!(trim_str(""), "");
    assert_eq!(trim_str("\u{3000}a b\u{2028}"), "a b");
}

#[test]
fn trim_agrees_with_std() {
    for s in ["", " a ", "\u{85}x\u{a0}", "a\u{200b}", " \r\n\t", "mid dle"] {
        assert_eq!(trim_str(s), s.trim());
    }
}

#[test]
fn trim_is_idempotent() {
    let once = trim_str("  warning: x  ");
    assert_eq!(trim_str(&once), once);
}

#[test]
fn prefix_and_suffix_tests() {
    assert!(starts_with_str("Compiling x", "Compiling "));
    assert!(!starts_with_str("Compil", "Compiling "));
    assert!(starts_with_str("abc", ""));
    assert!(ends_with_str("2 warnings emitted", "warnings emitted"));
    assert!(!ends_with_str("1 warning emitted", "warnings emitted"));
    assert!(str_equal("error", "error"));
    assert!(!str_equal("error", "errors"));
}

#[test]
fn decimal_rendering() {
    assert_eq!(decimal_string(0), "0");
    assert_eq!(decimal_string(7), "7");
    assert_eq!(decimal_string(1234), "1234");
    assert_eq!(decimal_string(u64::MAX), u64::MAX.to_string());
}
