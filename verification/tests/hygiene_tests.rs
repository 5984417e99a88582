use reverse_proxy::headers::{header_name_eq, HeaderSet};
use reverse_proxy::hygiene::{
    disable_user_agent_if_not_set, remove_connection_headers, remove_hop_by_hop_headers,
    request_hygiene, response_hygiene,
};

fn set_of(pairs: &[(&str, &str)]) -> HeaderSet {
    let mut h = HeaderSet::new();
    for (n, v) in pairs {
        h.push(String::from(*n), String::from(*v));
    }
    h
}

fn entries_of(h: &HeaderSet) -> Vec<(String, String)> {
    let mut out = Vec::new();
    for i in 0..h.len() {
        out.push((h.name_at(i).clone(), h.value_at(i).clone()));
    }
    out
}

fn assert_entries(h: &HeaderSet, expected: &[(&str, &str)]) {
    let got = entries_of(h);
    let want: Vec<(String, String)> = expected
        .iter()
        .map(|(n, v)| (String::from(*n), String::from(*v)))
        .collect();
    assert_eq!(got, want);
}

#[test]
fn compare_headers() {
    let h1 = "X-Forwarded-For";
    let h2 = "x-forwarded-for";
    assert_eq!(header_name_eq(h1, h2), true);
}

#[test]
fn header_names_differ() {
    assert!(!header_name_eq("X-Forwarded-For", "X-Forwarded-Fox"));
    assert!(!header_name_eq("Connection", "Connections"));
}

#[test]
fn connection_directives_are_removed() {
    let mut h = set_of(&[
        ("Connection", "close, X-Custom"),
        ("X-Custom", "1"),
        ("x-custom", "2"),
        ("Host", "example.com"),
    ]);
    remove_connection_headers(&mut h);
    assert_entries(&h, &[("Connection", "close, X-Custom"), ("Host", "example.com")]);
}

#[test]
fn hop_by_hop_catalog_is_removed() {
    let mut h = set_of(&[
        ("Connection", "keep-alive"),
        ("Keep-Alive", "300"),
        ("Transfer-Encoding", "chunked"),
        ("Upgrade", "websocket"),
        ("Host", "example.com"),
    ]);
    remove_hop_by_hop_headers(&mut h);
    assert_entries(&h, &[("Host", "example.com")]);
}

#[test]
fn te_trailers_survives_catalog_removal() {
    let mut h = set_of(&[("Te", "trailers"), ("Trailer", "Expires")]);
    remove_hop_by_hop_headers(&mut h);
    assert_entries(&h, &[("Te", "trailers")]);
}

#[test]
fn te_other_value_is_removed() {
    let mut h = set_of(&[("Te", "gzip")]);
    remove_hop_by_hop_headers(&mut h);
    assert_entries(&h, &[]);
}

#[test]
fn empty_valued_catalog_header_is_kept() {
    let mut h = set_of(&[("Upgrade", ""), ("Keep-Alive", "300")]);
    remove_hop_by_hop_headers(&mut h);
    assert_entries(&h, &[("Upgrade", "")]);
}

#[test]
fn user_agent_defaults_to_empty() {
    let mut h = set_of(&[("Host", "example.com")]);
    disable_user_agent_if_not_set(&mut h);
    assert_entries(&h, &[("Host", "example.com"), ("User-Agent", "")]);
}

#[test]
fn user_agent_is_kept_when_present() {
    let mut h = set_of(&[("User-Agent", "curl/8")]);
    disable_user_agent_if_not_set(&mut h);
    assert_entries(&h, &[("User-Agent", "curl/8")]);
}

#[test]
fn request_hygiene_full_pass() {
    let mut h = set_of(&[
        ("Connection", "close, X-Custom"),
        ("X-Custom", "1"),
        ("Keep-Alive", "300"),
        ("Te", "trailers"),
        ("Transfer-Encoding", "chunked"),
        ("Host", "example.com"),
    ]);
    request_hygiene(&mut h);
    assert_entries(
        &h,
        &[("Te", "trailers"), ("Host", "example.com"), ("User-Agent", "")],
    );
}

#[test]
fn request_hygiene_is_idempotent() {
    let mut once = set_of(&[
        ("Connection", "close, X-Custom"),
        ("X-Custom", "1"),
        ("Te", "trailers"),
        ("Upgrade", ""),
        ("Host", "example.com"),
    ]);
    request_hygiene(&mut once);
    let mut twice = once.clone();
    request_hygiene(&mut twice);
    assert_eq!(entries_of(&once), entries_of(&twice));
}

#[test]
fn response_hygiene_keeps_clean_headers() {
    let mut h = set_of(&[("Content-Type", "text/plain"), ("X-Id", "7")]);
    response_hygiene(&mut h);
    assert_entries(&h, &[("Content-Type", "text/plain"), ("X-Id", "7")]);
}

#[test]
fn response_hygiene_strips_and_adds_no_user_agent() {
    let mut h = set_of(&[
        ("Connection", "keep-alive"),
        ("Keep-Alive", "300"),
        ("Content-Length", "12"),
    ]);
    response_hygiene(&mut h);
    assert_entries(&h, &[("Content-Length", "12")]);
}
