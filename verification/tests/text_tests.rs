use reverse_proxy::addr::{is_ipv4_str, is_ipv6_str};
use reverse_proxy::text::{parse_decimal, split_str, str_eq, trim};

#[test]
fn split_keeps_empty_pieces() {
    let got = split_str("close, X-Custom,", ',');
    assert_eq!(got, vec![String::from("close"), String::from(" X-Custom"), String::from("")]);
    assert_eq!(split_str("", ','), vec![String::from("")]);
}

#[test]
fn trim_strips_ascii_whitespace() {
    assert_eq!(trim("  close\t"), "close");
    assert_eq!(trim("close"), "close");
    assert_eq!(trim(" \t "), "");
}

#[test]
fn parse_decimal_bounds() {
    assert_eq!(parse_decimal("8000"), Some(8000));
    assert_eq!(parse_decimal("0"), Some(0));
    assert_eq!(parse_decimal(""), None);
    assert_eq!(parse_decimal("123456"), None);
    assert_eq!(parse_decimal("12a"), None);
}

#[test]
fn str_eq_is_case_sensitive() {
    assert!(str_eq("trailers", "trailers"));
    assert!(!str_eq("trailers", "Trailers"));
}

#[test]
fn ipv4_grammar() {
    assert!(is_ipv4_str("127.0.0.1"));
    assert!(is_ipv4_str("255.255.255.255"));
    assert!(!is_ipv4_str("256.0.0.1"));
    assert!(!is_ipv4_str("01.2.3.4"));
    assert!(!is_ipv4_str("1.2.3"));
    assert!(!is_ipv4_str("1.2.3.4.5"));
}

#[test]
fn ipv6_grammar() {
    assert!(is_ipv6_str("2001:db8:0:1:1:1:1:1"));
    assert!(is_ipv6_str("::1"));
    assert!(is_ipv6_str("1::"));
    assert!(is_ipv6_str("::"));
    assert!(is_ipv6_str("2001:db8::7"));
    assert!(!is_ipv6_str("1:::2"));
    assert!(!is_ipv6_str(":1"));
    assert!(!is_ipv6_str("1:"));
    assert!(!is_ipv6_str("1:2:3:4:5:6:7:8:9"));
    assert!(!is_ipv6_str("g::1"));
}

#[test]
fn ipv6_embedded_ipv4_tail() {
    assert!(is_ipv6_str("::ffff:1.2.3.4"));
    assert!(is_ipv6_str("::1.2.3.4"));
    assert!(is_ipv6_str("1::1.2.3.4"));
    assert!(is_ipv6_str("6:5:4:3:2:1:1.2.3.4"));
    assert!(!is_ipv6_str("1:2:3:4:5:6:7:1.2.3.4"));
    assert!(!is_ipv6_str("::ffff:1.2.3.456"));
    assert!(!is_ipv6_str("1.2.3.4"));
    assert!(!is_ipv6_str("fe80::1%3"));
}
