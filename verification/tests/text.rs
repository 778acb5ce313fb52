use valedesk_core::text::{
    blank, char_is_white_space, chars_of, decimal_string, join2, join3, starts_with, str_eq,
    string_of, strip_trailing, trim,
};
use valedesk_core::text::lines;
use valedesk_core::text::signed_decimal_string;
use valedesk_core::text::ascii_lowercase;

#[test]
fn white_space_is_what_the_standard_library_says() {
    let mut n: u32 = 0;
    while n <= 0x10FFFF {
        if let Some(c) = char::from_u32(n) {
            assert_eq!(char_is_white_space(c), c.is_whitespace(), "U+{:04X}", n);
        }
        n += 1;
    }
}

#[test]
fn blank_strings() {
    assert!(blank(""));
    assert!(blank(" \t\r\n\u{00A0}\u{3000}"));
    assert!(!blank(" a "));
    assert!(!blank("\u{200B}"));
}

#[test]
fn trim_removes_white_space_at_both_ends() {
    for s in ["", "   ", "abc", "  abc", "abc  ", " \t a b \r\n", "\u{3000}x\u{2028}", "a\u{200B} "] {
        assert_eq!(trim(s), s.trim().to_string(), "{:?}", s);
    }
}

#[test]
fn trailing_characters_are_stripped() {
    assert_eq!(strip_trailing("http://x/v1///", '/'), "http://x/v1");
    assert_eq!(strip_trailing("///", '/'), "");
    assert_eq!(strip_trailing("a/b", '/'), "a/b");
}

#[test]
fn decimal_numerals() {
    assert_eq!(decimal_string(0), "0");
    assert_eq!(decimal_string(7), "7");
    assert_eq!(decimal_string(10), "10");
    assert_eq!(decimal_string(1234567890), "1234567890");
    assert_eq!(decimal_string(u64::MAX), "18446744073709551615");
}

#[test]
fn prefixes() {
    assert!(starts_with("asr-sidecar-aarch64", "asr-sidecar"));
    assert!(starts_with("abc", ""));
    assert!(starts_with("abc", "abc"));
    assert!(!starts_with("ab", "abc"));
    assert!(!starts_with("xasr-sidecar", "asr-sidecar"));
}

#[test]
fn string_equality_and_joining() {
    assert!(str_eq("héllo", "héllo"));
    assert!(!str_eq("hello", "hellO"));
    assert!(!str_eq("a", "ab"));
    assert_eq!(join2("ab", "cd"), "abcd");
    assert_eq!(join3("a", "", "c"), "ac");
}

#[test]
fn characters_and_substrings() {
    let v = chars_of("añb→c");
    assert_eq!(v, vec!['a', 'ñ', 'b', '→', 'c']);
    assert_eq!(string_of(&v, 1, 4), "ñb→");
    assert_eq!(string_of(&v, 2, 2), "");
}

#[test]
fn lines_are_what_the_standard_library_says() {
    for s in ["", "a", "a\n", "a\nb", "a\r\nb\r\n", "\n", "\n\n", "a\r", "a\rb\n", "\r\n", "a\n\nb", "x\r\r\n", "é\n→"] {
        let expected: Vec<String> = s.lines().map(|l| l.to_string()).collect();
        assert_eq!(lines(s), expected, "{:?}", s);
    }
}

#[test]
fn signed_numerals() {
    assert_eq!(signed_decimal_string(0), "0");
    assert_eq!(signed_decimal_string(-1), "-1");
    assert_eq!(signed_decimal_string(i32::MIN), "-2147483648");
    assert_eq!(signed_decimal_string(i32::MAX), "2147483647");
}

#[test]
fn ascii_letters_are_lowered() {
    assert_eq!(ascii_lowercase("AbC-É/Z"), "abc-É/z");
    assert_eq!(ascii_lowercase("AbC-É/Z"), "AbC-É/Z".to_ascii_lowercase());
}
