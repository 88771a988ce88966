use music_rpc::logging::log_line;
use music_rpc::memory::{section_name, u16_buf_to_string};
use music_rpc::text::{
    chars_of, str_concat, contains, decimal_string, is_whitespace, str_eq, string_from_chars,
    to_ascii_lowercase,
};

#[test]
fn decimal_strings() {
    assert_eq!(decimal_string(0), "0");
    assert_eq!(decimal_string(7), "7");
    assert_eq!(decimal_string(10), "10");
    assert_eq!(decimal_string(1_234_567), "1234567");
    assert_eq!(decimal_string(u64::MAX as u128), u64::MAX.to_string());
    assert_eq!(decimal_string(u128::MAX), u128::MAX.to_string());
}

#[test]
fn ascii_lowercase_leaves_other_chars() {
    assert_eq!(to_ascii_lowercase("CloudMusic.EXE"), "cloudmusic.exe");
    assert_eq!(to_ascii_lowercase("ÄÖ-Z@["), "ÄÖ-z@[");
}

#[test]
fn substring_search() {
    assert!(contains("cloudmusic.exe", "cloudmusic"));
    assert!(contains("abc", ""));
    assert!(contains("xxabc", "abc"));
    assert!(!contains("ab", "abc"));
    assert!(!contains("acb", "ab"));
}

#[test]
fn lossy_decoding_replaces_invalid_input() {
    assert_eq!(section_name(i64::from_le_bytes(*b"ok\0\0\0\0\0\0")), "ok");
    assert_eq!(section_name(i64::from_le_bytes([0x61, 0xFF, 0x62, 0, 0, 0, 0, 0])), "a\u{FFFD}b");
    assert_eq!(u16_buf_to_string(&[0x68, 0x69, 0, 0x70]), "hi");
    assert_eq!(u16_buf_to_string(&[0x68, 0xD800]), "h\u{FFFD}");
}

#[test]
fn small_string_helpers() {
    assert_eq!(str_concat("x", "yz"), "xyz");
    assert!(str_eq("same", "same"));
    assert!(!str_eq("same", "Same"));
    let cs = chars_of("héllo");
    assert_eq!(cs, vec!['h', 'é', 'l', 'l', 'o']);
    assert_eq!(string_from_chars(&cs, 1, 4), "éll");
}

#[test]
fn unicode_whitespace() {
    for c in ['\t', '\n', '\u{0B}', '\u{0C}', '\r', ' ', '\u{85}', '\u{A0}', '\u{1680}', '\u{2000}', '\u{200A}', '\u{2028}', '\u{2029}', '\u{202F}', '\u{205F}', '\u{3000}'] {
        assert!(is_whitespace(c), "{c:?}");
        assert_eq!(is_whitespace(c), c.is_whitespace());
    }
    for c in ['a', '?', '\u{200B}', '\u{FEFF}', '0'] {
        assert!(!is_whitespace(c));
        assert_eq!(is_whitespace(c), c.is_whitespace());
    }
}

#[test]
fn log_lines_are_timestamped() {
    assert_eq!(log_line(1_700_000_000_123, "[loop] exit requested"), "[1700000000123] [loop] exit requested");
    assert_eq!(log_line(0, ""), "[0] ");
}
