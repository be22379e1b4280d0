use pressnots::text::{
    chars_of, contains_str, decode_wide_name, hex_string, trim_whitespace, wide_null,
};

#[test]
fn hex_formats_pad_and_case() {
    assert_eq!(hex_string(0x1d, 4, false), "001d");
    assert_eq!(hex_string(0xa3, 2, true), "A3");
    assert_eq!(hex_string(0, 1, false), "0");
    assert_eq!(hex_string(0x12345, 2, false), "12345");
    assert_eq!(hex_string(u64::MAX, 1, false), "ffffffffffffffff");
}

#[test]
fn substring_search() {
    assert!(contains_str(r"\\?\HID#VID_1234&PID_5678", "VID_1234"));
    assert!(contains_str("abc", ""));
    assert!(contains_str("abc", "abc"));
    assert!(!contains_str("ab", "abc"));
    assert!(!contains_str("aXbc", "abc"));
    assert!(contains_str("aababc", "abc"));
}

#[test]
fn trim_removes_unicode_whitespace_at_both_ends() {
    assert_eq!(trim_whitespace("  a b \t"), "a b");
    assert_eq!(trim_whitespace("\u{a0}\u{2003}x\u{3000}"), "x");
    assert_eq!(trim_whitespace(" \n "), "");
    assert_eq!(trim_whitespace("x"), "x");
    for s in ["  a b \t", "\u{85}q\u{202f}", "", "\u{1680}", "x y"] {
        assert_eq!(trim_whitespace(s), s.trim());
    }
}

#[test]
fn wide_null_encodes_utf16_with_terminator() {
    assert_eq!(wide_null("EDIT"), vec![0x45, 0x44, 0x49, 0x54, 0]);
    assert_eq!(wide_null(""), vec![0]);
    assert_eq!(wide_null("\u{1f3b9}a"), vec![0xd83c, 0xdfb9, 0x61, 0]);
    let s = "Press\u{e4}Nots \u{10ffff}";
    let expected: Vec<u16> = s.encode_utf16().chain([0]).collect();
    assert_eq!(wide_null(s), expected);
}

#[test]
fn wide_names_stop_at_nul_and_replace_lone_surrogates() {
    assert_eq!(decode_wide_name(&[0x48, 0x49, 0, 0x4a]), "HI");
    assert_eq!(decode_wide_name(&[0x41, 0x42]), "AB");
    assert_eq!(decode_wide_name(&[0xd83c, 0xdfb9]), "\u{1f3b9}");
    assert_eq!(decode_wide_name(&[0xd83c, 0x41]), "\u{fffd}A");
    assert_eq!(decode_wide_name(&[0xdfb9]), "\u{fffd}");
    assert_eq!(decode_wide_name(&[]), "");
}

#[test]
fn chars_of_collects_characters() {
    assert_eq!(chars_of("a\u{e4}b"), vec!['a', '\u{e4}', 'b']);
}
