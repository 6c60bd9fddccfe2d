use audio_bridge::text::starts_with_text;
use audio_bridge::text::{
    decimal_string, parse_u16, parse_u32, str_chars, split_first, split_second, string_from_chars,
    text_eq, contains_chars,
};

#[test]
fn parse_u16_matches_std() {
    let cases = [
        "0", "7", "12345", "65535", "65536", "+5", "+", "-5", "-0", "", " 5", "5 ", "00012",
        "1a", "99999999999999999999", "+65535", "٣",
    ];
    for c in cases {
        assert_eq!(parse_u16(c), c.parse::<u16>().ok(), "input {:?}", c);
    }
}

#[test]
fn parse_u32_matches_std() {
    let cases = ["0", "4294967295", "4294967296", "+42", "60", "x", "", "-1"];
    for c in cases {
        assert_eq!(parse_u32(c), c.parse::<u32>().ok(), "input {:?}", c);
    }
}

#[test]
fn decimal_string_matches_format() {
    for n in [0usize, 5, 9, 10, 11, 99, 100, 148, 1420, 65535, 1234567890] {
        assert_eq!(decimal_string(n), format!("{}", n));
    }
}

#[test]
fn split_fields() {
    let s = str_chars("10.0.0.1:3333:x");
    assert_eq!(split_first(&s, ':'), str_chars("10.0.0.1"));
    assert_eq!(split_second(&s, ':'), Some(str_chars("3333")));
    let t = str_chars("host");
    assert_eq!(split_first(&t, ':'), str_chars("host"));
    assert_eq!(split_second(&t, ':'), None);
    let u = str_chars("a:");
    assert_eq!(split_second(&u, ':'), Some(vec![]));
}

#[test]
fn chars_round_trip() {
    let s = "ab🔒c";
    assert_eq!(str_chars(s), vec!['a', 'b', '🔒', 'c']);
    assert_eq!(string_from_chars(&str_chars(s)), s);
}

#[test]
fn contains_and_prefix() {
    let s = str_chars("WireGuardError(ConnectionExpired)");
    assert!(contains_chars(&s, &str_chars("ConnectionExpired")));
    assert!(!contains_chars(&s, &str_chars("Timeout")));
    assert!(contains_chars(&s, &[]));
    assert!(text_eq("abc", "abc"));
    assert!(!text_eq("abc", "abd"));
}

#[test]
fn prefixes() {
    assert!(starts_with_text("Wireguard", "Wire"));
    assert!(starts_with_text("x", ""));
    assert!(!starts_with_text("Wi", "Wire"));
    assert!(!starts_with_text("🔒a", "a"));
}
