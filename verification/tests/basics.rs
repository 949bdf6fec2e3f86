use herdr::json::{field_is_null, find_member, put_member, take_member, Json};
use herdr::random::random_hex;
use herdr::text::{
    blank, byte_len, contains_str, dec_string, dec_string_20, distinct, find_str, hex_bytes,
    hex_string, keep_firsts, parse_uint, split_once, trim_prefixes,
};

fn strings(items: &[&str]) -> Vec<String> {
    items.iter().map(|item| (*item).to_string()).collect()
}

#[test]
fn numbers_are_written_and_read() {
    assert_eq!(dec_string(0), "0");
    assert_eq!(dec_string(u64::MAX), "18446744073709551615");
    assert_eq!(dec_string_20(42), "00000000000000000042");
    assert_eq!(hex_string(0), "0");
    assert_eq!(hex_string(0xdead_beef), "deadbeef");
    assert_eq!(hex_bytes(&[0, 1, 0xff]), "0001ff");
    assert_eq!(parse_uint("0042", 100), Some(42));
    assert_eq!(parse_uint("+7", 100), Some(7));
    assert_eq!(parse_uint("101", 100), None);
    assert_eq!(parse_uint("", 100), None);
    assert_eq!(parse_uint("-1", 100), None);
    assert_eq!(parse_uint("18446744073709551616", u64::MAX), None);
}

#[test]
fn texts_are_searched() {
    assert_eq!(find_str("a::b::c", "::"), Some(1));
    assert_eq!(find_str("abc", "::"), None);
    assert!(contains_str("abc", ""));
    assert_eq!(split_once("a::b::c", "::"), Some(("a".to_string(), "b::c".to_string())));
    assert_eq!(split_once("abc", "::"), None);
    assert_eq!(trim_prefixes("--x", "-"), "x");
    assert!(blank(" \t\n"));
    assert!(!blank(" x "));
    assert_eq!(byte_len("\u{e9}\u{1f600}"), 6);
}

#[test]
fn repetitions_are_found() {
    assert!(distinct(&strings(&["a", "b"])));
    assert!(!distinct(&strings(&["a", "b", "a"])));
    assert_eq!(keep_firsts(&strings(&["a", "b", "a"])), ["a", "b"]);
}

#[test]
fn objects_hold_members() {
    let mut members = vec![];
    put_member(&mut members, "a".into(), Json::Bool(true));
    put_member(&mut members, "b".into(), Json::Null);
    put_member(&mut members, "a".into(), Json::Bool(false));
    assert_eq!(find_member(&members, "a"), Some(0));
    assert!(field_is_null(&members, "b"));
    assert!(!field_is_null(&members, "a"));
    assert!(matches!(take_member(&mut members, "a"), Some(Json::Bool(false))));
    assert!(field_is_null(&members, "a"));
    assert!(take_member(&mut members, "c").is_none());
}

#[test]
fn random_digits_differ() {
    let first = random_hex(16).unwrap();
    assert_eq!(first.len(), 32);
    assert_ne!(first, random_hex(16).unwrap());
}
