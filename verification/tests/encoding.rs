use dirserve::pct::{decode_segment, encode_segment};
use dirserve::strutil::{push_dec, split_str, str_eq, str_starts_with};

#[test]
fn encode_space() {
    assert_eq!(encode_segment("a b"), "a%20b");
}

#[test]
fn encode_unreserved_unchanged() {
    assert_eq!(encode_segment("AZaz09-._~"), "AZaz09-._~");
}

#[test]
fn encode_unicode() {
    assert_eq!(encode_segment("\u{e9}"), "%C3%A9");
}

#[test]
fn decode_basic() {
    assert_eq!(decode_segment("a%20b").as_deref(), Some("a b"));
}

#[test]
fn decode_lowercase_hex() {
    assert_eq!(decode_segment("%c3%a9").as_deref(), Some("\u{e9}"));
}

#[test]
fn decode_stray_percent_passes_through() {
    assert_eq!(decode_segment("100%").as_deref(), Some("100%"));
    assert_eq!(decode_segment("a%zz").as_deref(), Some("a%zz"));
}

#[test]
fn decode_invalid_utf8_is_none() {
    assert_eq!(decode_segment("%FF"), None);
}

#[test]
fn round_trip_space() {
    let name = "my file.txt";
    assert_eq!(decode_segment(&encode_segment(name)).as_deref(), Some(name));
}

#[test]
fn round_trip_unicode() {
    let name = "h\u{e9}llo \u{2603}.txt";
    assert_eq!(decode_segment(&encode_segment(name)).as_deref(), Some(name));
}

#[test]
fn split_keeps_empty_pieces() {
    let pieces = split_str("a/b//c", '/');
    assert_eq!(pieces, vec!["a", "b", "", "c"]);
}

#[test]
fn split_empty_is_one_piece() {
    assert_eq!(split_str("", '/'), vec![""]);
}

#[test]
fn decimal_formatting() {
    let mut s = String::new();
    push_dec(0, &mut s);
    assert_eq!(s, "0");
    let mut s = String::new();
    push_dec(18446744073709551615, &mut s);
    assert_eq!(s, "18446744073709551615");
}

#[test]
fn string_predicates() {
    assert!(str_starts_with("/static_contents/x", "/static_contents"));
    assert!(!str_starts_with("/stat", "/static_contents"));
    assert!(str_eq("abc", "abc"));
    assert!(!str_eq("abc", "abd"));
}
