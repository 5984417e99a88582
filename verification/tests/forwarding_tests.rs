use reverse_proxy::chain::{add_client_ip, parse_and_add_client_ip, x_forwarded_for_value};
use reverse_proxy::headers::HeaderSet;
use reverse_proxy::proxy::{
    build_downstream, downstream_status, on_dispatch, on_upstream_outcome, ExchangeState,
    InboundRequest, ReverseProxy, UpstreamOutcome, BAD_GATEWAY, DEFAULT_TIMEOUT_MS,
    GATEWAY_TIMEOUT,
};

#[test]
fn test_add_client_ip() {
    let mut header_value = String::from("192.168.25.12");
    let client_address = "127.0.0.1:8000";
    parse_and_add_client_ip(&mut header_value, client_address);
    assert_eq!(&header_value, "192.168.25.12, 127.0.0.1");
}

#[test]
fn add_client_ip_to_empty_chain() {
    let mut v = String::new();
    add_client_ip(&mut v, "10.0.0.1");
    assert_eq!(&v, "10.0.0.1");
}

#[test]
fn forwarded_value_from_socket_address() {
    let v = x_forwarded_for_value(None, Some("127.0.0.1:8000"));
    assert_eq!(&v, "127.0.0.1");
}

#[test]
fn forwarded_value_appends_to_existing_chain() {
    let v = x_forwarded_for_value(Some("192.168.25.12"), Some("127.0.0.1:8000"));
    assert_eq!(&v, "192.168.25.12, 127.0.0.1");
}

#[test]
fn forwarded_value_ignores_malformed_address() {
    let v = x_forwarded_for_value(Some("a"), Some("not-an-address"));
    assert_eq!(&v, "a");
}

#[test]
fn forwarded_value_without_peer() {
    let v = x_forwarded_for_value(Some("192.168.25.12"), None);
    assert_eq!(&v, "192.168.25.12");
}

#[test]
fn forwarded_value_bare_ip_peer() {
    let v = x_forwarded_for_value(None, Some("10.1.2.3"));
    assert_eq!(&v, "10.1.2.3");
}

#[test]
fn forwarded_value_ipv6_peer() {
    let v = x_forwarded_for_value(None, Some("[::1]:8080"));
    assert_eq!(&v, "::1");
    let v6 = x_forwarded_for_value(Some("::1"), Some("2001:db8::7"));
    assert_eq!(&v6, "::1, 2001:db8::7");
}

#[test]
fn forwarded_value_v4_mapped_peer() {
    let v = x_forwarded_for_value(Some("a"), Some("::ffff:1.2.3.4"));
    assert_eq!(&v, "a, ::ffff:1.2.3.4");
}

#[test]
fn forwarded_value_scoped_socket_strips_scope() {
    let v = x_forwarded_for_value(None, Some("[fe80::1%3]:80"));
    assert_eq!(&v, "fe80::1");
    let w = x_forwarded_for_value(Some("a"), Some("[fe80::1%4294967296]:80"));
    assert_eq!(&w, "a");
}

#[test]
fn forwarded_value_bracketed_ip_is_verbatim() {
    let v = x_forwarded_for_value(None, Some("[FE80::0001]:80"));
    assert_eq!(&v, "FE80::0001");
}

#[test]
fn forwarded_value_rejects_octet_overflow() {
    let v = x_forwarded_for_value(Some("a"), Some("256.1.1.1:80"));
    assert_eq!(&v, "a");
    let w = x_forwarded_for_value(Some("a"), Some("10.0.0.1:99999"));
    assert_eq!(&w, "a");
}

#[test]
fn forward_uri_with_query() {
    let proxy = ReverseProxy::new("http://127.0.0.1:8080");
    let uri = proxy.forward_uri("/path/to%2Fit", Some("a=1&b=2"));
    assert_eq!(&uri, "http://127.0.0.1:8080/path/to%2Fit?a=1&b=2");
}

#[test]
fn forward_uri_without_query() {
    let proxy = ReverseProxy::new("http://upstream.internal");
    let uri = proxy.forward_uri("/p", None);
    assert_eq!(&uri, "http://upstream.internal/p");
}

#[test]
fn timeout_builder_replaces_default() {
    let proxy = ReverseProxy::new("http://u");
    assert_eq!(proxy.timeout_ms, DEFAULT_TIMEOUT_MS);
    let proxy = proxy.timeout(1500);
    assert_eq!(proxy.timeout_ms, 1500);
    assert_eq!(proxy.forward_url, "http://u");
}

fn inbound(pairs: &[(&str, &str)], peer: Option<&str>) -> InboundRequest {
    let mut headers = HeaderSet::new();
    for (n, v) in pairs {
        headers.push(String::from(*n), String::from(*v));
    }
    InboundRequest {
        method: String::from("GET"),
        path: String::from("/p"),
        query: None,
        headers,
        peer_address: peer.map(String::from),
    }
}

#[test]
fn build_outbound_sets_chain_and_cleans() {
    let proxy = ReverseProxy::new("http://up");
    let req = inbound(
        &[
            ("X-Forwarded-For", "192.168.25.12"),
            ("Connection", "x-remove"),
            ("X-Remove", "1"),
        ],
        Some("10.0.0.1:555"),
    );
    let out = proxy.build_outbound(&req);
    assert_eq!(&out.method, "GET");
    assert_eq!(&out.uri, "http://up/p");
    let mut got = Vec::new();
    for i in 0..out.headers.len() {
        got.push((out.headers.name_at(i).clone(), out.headers.value_at(i).clone()));
    }
    assert_eq!(
        got,
        vec![
            (String::from("X-Forwarded-For"), String::from("192.168.25.12, 10.0.0.1")),
            (String::from("User-Agent"), String::from("")),
        ]
    );
}

#[test]
fn build_downstream_mirrors_clean_upstream() {
    let mut upstream = HeaderSet::new();
    upstream.push(String::from("Content-Type"), String::from("text/plain"));
    upstream.push(String::from("X-Id"), String::from("7"));
    let resp = build_downstream(201, &upstream);
    assert_eq!(resp.status, 201);
    assert_eq!(resp.headers.len(), 2);
    assert_eq!(resp.headers.name_at(0).as_str(), "Content-Type");
    assert_eq!(resp.headers.value_at(0).as_str(), "text/plain");
    assert_eq!(resp.headers.name_at(1).as_str(), "X-Id");
    assert_eq!(resp.headers.value_at(1).as_str(), "7");
}

#[test]
fn build_downstream_strips_hop_by_hop() {
    let mut upstream = HeaderSet::new();
    upstream.push(String::from("Connection"), String::from("keep-alive"));
    upstream.push(String::from("Keep-Alive"), String::from("300"));
    upstream.push(String::from("Content-Length"), String::from("4"));
    let resp = build_downstream(200, &upstream);
    assert_eq!(resp.status, 200);
    assert_eq!(resp.headers.len(), 1);
    assert_eq!(resp.headers.name_at(0).as_str(), "Content-Length");
}

#[test]
fn exchange_completes_on_response() {
    let sent = on_dispatch(ExchangeState::Building);
    assert_eq!(sent, ExchangeState::Sent);
    let outcome = UpstreamOutcome::Responded(200);
    assert_eq!(on_upstream_outcome(sent, &outcome), ExchangeState::Completed);
    assert_eq!(downstream_status(&outcome), 200);
}

#[test]
fn exchange_times_out_as_gateway_timeout() {
    let sent = on_dispatch(ExchangeState::Building);
    let outcome = UpstreamOutcome::TimedOut;
    let end = on_upstream_outcome(sent, &outcome);
    assert_eq!(end, ExchangeState::TimedOut);
    assert_eq!(downstream_status(&outcome), GATEWAY_TIMEOUT);
    assert_eq!(downstream_status(&outcome), 504);
}

#[test]
fn exchange_transport_failure_is_bad_gateway() {
    let outcome = UpstreamOutcome::TransportFailed;
    let end = on_upstream_outcome(ExchangeState::Sent, &outcome);
    assert_eq!(end, ExchangeState::TransportFailed);
    assert_eq!(downstream_status(&outcome), BAD_GATEWAY);
    assert_eq!(downstream_status(&outcome), 502);
}
