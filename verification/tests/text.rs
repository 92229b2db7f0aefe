use ya_http_proxy::text::{
    char_is_whitespace, concat2, concat3, ends_with_char, find_char, starts_with, str_eq,
    str_eq_ignore_ascii_case, strip_prefix_or_stay, take_before, to_decimal, to_hex,
    to_hexadecimal, trim,
};

#[test]
fn prefixes_and_suffixes() {
    assert!(starts_with("/test/x", "/test"));
    assert!(starts_with("/test", "/test"));
    assert!(starts_with("/test", ""));
    assert!(!starts_with("/tes", "/test"));
    assert!(!starts_with("/best/x", "/test"));
    assert!(ends_with_char("abc/", '/'));
    assert!(!ends_with_char("", '/'));
    assert_eq!(strip_prefix_or_stay("/sub/2/x", "/sub/2"), "/x");
    assert_eq!(strip_prefix_or_stay("/other", "/sub"), "/other");
}

#[test]
fn equality_of_strings() {
    assert!(str_eq("żółw", "żółw"));
    assert!(!str_eq("a", "b"));
    assert!(!str_eq("a", "ab"));
    assert!(str_eq_ignore_ascii_case("BaSiC", "basic"));
    assert!(!str_eq_ignore_ascii_case("basic", "basik"));
    assert!(!str_eq_ignore_ascii_case("basic", "basi"));
}

#[test]
fn trimming() {
    assert_eq!(trim("  /a b \t\n"), "/a b");
    assert_eq!(trim("\u{a0}x\u{3000}"), "x");
    assert_eq!(trim("   "), "");
    assert_eq!(trim(""), "");
    assert!(char_is_whitespace(' '));
    assert!(char_is_whitespace('\u{2028}'));
    assert!(!char_is_whitespace('a'));
}

#[test]
fn searching() {
    assert_eq!(find_char("user:pass:word", ':'), Some(4));
    assert_eq!(find_char("user", ':'), None);
    assert_eq!(take_before("user:pass:word", ':'), "user");
    assert_eq!(take_before("user", ':'), "user");
    assert_eq!(take_before(":x", ':'), "");
}

#[test]
fn numbers_as_text() {
    assert_eq!(to_decimal(0), "0");
    assert_eq!(to_decimal(6668), "6668");
    assert_eq!(to_decimal(u64::MAX), "18446744073709551615");
    assert_eq!(to_hexadecimal(0), "0");
    assert_eq!(to_hexadecimal(0xdead_beef), "deadbeef");
    assert_eq!(to_hex(&[0x00, 0x0f, 0xa7, 0xff]), "000fa7ff");
    assert_eq!(to_hex(&[]), "");
}

#[test]
fn concatenation() {
    assert_eq!(concat2("a", "b"), "ab");
    assert_eq!(concat3("u", ":", "p"), "u:p");
}
