use depot::text::{is_white_space, chars_of, decimal, escape_newlines, str_eq, string_from_chars, trim};

#[test]
fn trim_removes_surrounding_white_space() {
    assert_eq!(trim("  a b \t\n"), "a b");
    assert_eq!(trim("\u{3000}x\u{a0}"), "x");
    assert_eq!(trim("   "), "");
    assert_eq!(trim(""), "");
    assert_eq!(trim("none"), "none");
}

#[test]
fn trim_is_idempotent_on_example() {
    let once = trim(" \t tab \n");
    assert_eq!(trim(&once), once);
}

#[test]
fn escape_newlines_writes_backslash_n() {
    assert_eq!(escape_newlines("a\nb\n"), "a\\nb\\n");
    assert_eq!(escape_newlines("plain"), "plain");
    assert!(!escape_newlines("x\n\ny").contains('\n'));
}

#[test]
fn decimal_formats_like_to_string() {
    assert_eq!(decimal(0), "0");
    assert_eq!(decimal(7), "7");
    assert_eq!(decimal(10), "10");
    assert_eq!(decimal(1700000000123), "1700000000123");
    assert_eq!(decimal(u128::MAX), u128::MAX.to_string());
}

#[test]
fn chars_round_trip() {
    let cs = chars_of("héllo");
    assert_eq!(cs, vec!['h', 'é', 'l', 'l', 'o']);
    assert_eq!(string_from_chars(&cs), "héllo");
}

#[test]
fn str_eq_compares_characters() {
    assert!(str_eq("abc", "abc"));
    assert!(!str_eq("abc", "abd"));
    assert!(!str_eq("abc", "ab"));
    assert!(str_eq("", ""));
}

#[test]
fn white_space_matches_char_is_whitespace() {
    for u in 0u32..=0x10FFFF {
        if let Some(c) = char::from_u32(u) {
            assert_eq!(is_white_space(c), c.is_whitespace(), "{:x}", u);
        }
    }
}
