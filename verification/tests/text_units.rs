use rusty_dusty::text::{i32_to_string, parse_trimmed_u32, str_eq, u32_to_string};

#[test]
fn parse_accepts_plain_and_signed_plus_numbers() {
    assert_eq!(parse_trimmed_u32("7"), Some(7));
    assert_eq!(parse_trimmed_u32("+7"), Some(7));
    assert_eq!(parse_trimmed_u32("0"), Some(0));
    assert_eq!(parse_trimmed_u32("007"), Some(7));
    assert_eq!(parse_trimmed_u32("4294967295"), Some(u32::MAX));
}

#[test]
fn parse_trims_whitespace_at_both_ends() {
    assert_eq!(parse_trimmed_u32(" 42 "), Some(42));
    assert_eq!(parse_trimmed_u32("\t42\n"), Some(42));
    assert_eq!(parse_trimmed_u32("\u{a0}42\u{3000}"), Some(42));
}

#[test]
fn parse_rejects_malformed_input() {
    assert_eq!(parse_trimmed_u32(""), None);
    assert_eq!(parse_trimmed_u32("   "), None);
    assert_eq!(parse_trimmed_u32("abc"), None);
    assert_eq!(parse_trimmed_u32("-5"), None);
    assert_eq!(parse_trimmed_u32("+"), None);
    assert_eq!(parse_trimmed_u32("4 2"), None);
    assert_eq!(parse_trimmed_u32("42x"), None);
    assert_eq!(parse_trimmed_u32("4294967296"), None);
    assert_eq!(parse_trimmed_u32("99999999999999999999"), None);
}

#[test]
fn parse_agrees_with_std() {
    for s in ["15", "+15", " 8 ", "0", "4294967295", "4294967296", "-1", "", "x"] {
        assert_eq!(
            parse_trimmed_u32(s),
            s.trim().parse::<u32>().ok(),
            "input {:?}",
            s
        );
    }
}

#[test]
fn renders_decimals_exactly() {
    assert_eq!(u32_to_string(0), "0");
    assert_eq!(u32_to_string(7), "7");
    assert_eq!(u32_to_string(10), "10");
    assert_eq!(u32_to_string(305), "305");
    assert_eq!(u32_to_string(u32::MAX), "4294967295");
    assert_eq!(i32_to_string(0), "0");
    assert_eq!(i32_to_string(42), "42");
    assert_eq!(i32_to_string(-17), "-17");
    assert_eq!(i32_to_string(i32::MIN), "-2147483648");
}

#[test]
fn string_equality_is_character_wise() {
    assert!(str_eq("", ""));
    assert!(str_eq("abc", "abc"));
    assert!(!str_eq("abc", "abd"));
    assert!(!str_eq("abc", "ab"));
    assert!(str_eq("h\u{e9}llo", "h\u{e9}llo"));
    assert!(!str_eq("h\u{e9}llo", "hello"));
}
