use atproto_oauth::strutil::decimal_string;
use atproto_oauth::strutil::percent_encode_str;
use atproto_oauth::strutil::str_eq;
use atproto_oauth::strutil::str_starts_with;
use atproto_oauth::strutil::trim_ascii_ws;

#[test]
fn percent_encoding_leaves_unreserved_bytes() {
    assert_eq!(percent_encode_str("AZaz09-._~"), "AZaz09-._~");
}

#[test]
fn percent_encoding_escapes_reserved_bytes() {
    assert_eq!(percent_encode_str("a b/c?&="), "a%20b%2Fc%3F%26%3D");
    assert_eq!(percent_encode_str("https://x.y"), "https%3A%2F%2Fx.y");
    assert_eq!(percent_encode_str(""), "");
}

#[test]
fn percent_encoding_escapes_utf8_bytes() {
    assert_eq!(percent_encode_str("\u{e9}"), "%C3%A9");
}

#[test]
fn trim_removes_ascii_whitespace_at_both_ends() {
    assert_eq!(trim_ascii_ws("  did:plc:x\r\n"), "did:plc:x");
    assert_eq!(trim_ascii_ws("\t\n "), "");
    assert_eq!(trim_ascii_ws("no-ws"), "no-ws");
}

#[test]
fn decimal_rendering() {
    assert_eq!(decimal_string(0), "0");
    assert_eq!(decimal_string(7), "7");
    assert_eq!(decimal_string(42), "42");
    assert_eq!(decimal_string(100), "100");
    assert_eq!(decimal_string(9876543210), "9876543210");
}

#[test]
fn string_comparisons() {
    assert!(str_eq("abc", "abc"));
    assert!(!str_eq("abc", "abd"));
    assert!(!str_eq("abc", "ab"));
    assert!(str_starts_with("did:plc:x", "did:"));
    assert!(!str_starts_with("di", "did:"));
}
