//! The proxy itself: configuration, outbound-request construction, the
//! downstream response, and the per-exchange state machine.
//!
//! The host framework owns the sockets and the body streams; this module
//! decides everything about the exchange that is not I/O — the outbound
//! URI, the outbound header set, the downstream status and header set, and
//! which state the exchange moves to on each upstream outcome.

use vstd::prelude::*;

use crate::headers::{HeaderSet, has_name, first_value, set_header_spec};
use crate::hygiene::{
    request_hygiene, request_hygiene_spec, response_hygiene, response_hygiene_spec,
};
use crate::chain::{opt_view, x_forwarded_for_value, xff_value_spec};

verus! {

/// The round-trip timeout a proxy starts with, in milliseconds.
pub const DEFAULT_TIMEOUT_MS: u64 = 60000;

/// Gateway Timeout: what the caller sees when the upstream does not answer
/// within the configured timeout.
pub const GATEWAY_TIMEOUT: u16 = 504;

/// Bad Gateway: what the caller sees when the transport to the upstream
/// fails.
pub const BAD_GATEWAY: u16 = 502;

/// The name of the client-identity forwarding header.
pub open spec fn xff_name() -> Seq<char> {
    "X-Forwarded-For"@
}

/// The name of the client-identity forwarding header, as a string.
pub fn x_forwarded_for_header_name() -> (r: String)
    ensures
        r@ == xff_name(),
{
    String::from_str("X-Forwarded-For")
}

/// The proxy: an upstream base URL and a round-trip timeout.  Immutable
/// once built; shared read-only by all exchanges.
pub struct ReverseProxy<'a> {
    pub forward_url: &'a str,
    pub timeout_ms: u64,
}

/// What the core needs to know of an inbound request; the body stays with
/// the host framework as a stream.
pub struct InboundRequest {
    pub method: String,
    pub path: String,
    pub query: Option<String>,
    pub headers: HeaderSet,
    pub peer_address: Option<String>,
}

/// The outbound request to the upstream, up to its streamed body.
pub struct OutboundRequest {
    pub method: String,
    pub uri: String,
    pub headers: HeaderSet,
}

/// The downstream response to the original caller, up to its streamed body.
pub struct DownstreamResponse {
    pub status: u16,
    pub headers: HeaderSet,
}

/// The view of an optional owned string.
pub open spec fn opt_string_view(o: Option<String>) -> Option<Seq<char>> {
    match o {
        Some(s) => Some(s@),
        None => None,
    }
}

/// The outbound URI: the configured base, the inbound path unchanged, and
/// `?query` exactly when the inbound request carried a query string.
pub open spec fn forward_uri_spec(
    base: Seq<char>,
    path: Seq<char>,
    query: Option<Seq<char>>,
) -> Seq<char> {
    match query {
        Some(q) => base + path + "?"@ + q,
        None => base + path,
    }
}

/// The outbound header set: the inbound one with the forwarding-chain
/// header set, then full request hygiene.
pub open spec fn outbound_headers_spec(
    hs: Seq<(Seq<char>, Seq<char>)>,
    peer: Option<Seq<char>>,
) -> Seq<(Seq<char>, Seq<char>)> {
    let existing = if has_name(hs, xff_name()) {
        Some(first_value(hs, xff_name()))
    } else {
        None
    };
    let xff = xff_value_spec(existing, peer);
    request_hygiene_spec(set_header_spec(hs, xff_name(), xff))
}

impl<'a> ReverseProxy<'a> {
    /// A proxy for the given upstream base URL, with the default timeout.
    pub fn new(forward_url: &'a str) -> (r: ReverseProxy<'a>)
        ensures
            r.forward_url@ == forward_url@,
            r.timeout_ms == DEFAULT_TIMEOUT_MS,
    {
        ReverseProxy { forward_url, timeout_ms: DEFAULT_TIMEOUT_MS }
    }

    /// The same proxy with the round-trip timeout set to `duration_ms`
    /// milliseconds.
    pub fn timeout(self, duration_ms: u64) -> (r: ReverseProxy<'a>)
        ensures
            r.forward_url@ == self.forward_url@,
            r.timeout_ms == duration_ms,
    {
        ReverseProxy { forward_url: self.forward_url, timeout_ms: duration_ms }
    }

    /// Builds the outbound URI from the inbound path and query: plain
    /// concatenation, no normalization, no percent-decoding.
    pub fn forward_uri(&self, path: &str, query: Option<&str>) -> (r: String)
        ensures
            r@ == forward_uri_spec(self.forward_url@, path@, opt_view(query)),
    {
        let mut uri = String::from_str(self.forward_url);
        uri.append(path);
        if let Some(q) = query {
            uri.append("?");
            uri.append(q);
        }
        uri
    }

    /// Builds the outbound request for one inbound request: same method,
    /// the forwarded URI, and the inbound header set with the forwarding
    /// chain set and request hygiene applied.
    pub fn build_outbound(&self, inbound: &InboundRequest) -> (r: OutboundRequest)
        ensures
            r.method@ == inbound.method@,
            r.uri@ == forward_uri_spec(
                self.forward_url@,
                inbound.path@,
                opt_string_view(inbound.query),
            ),
            r.headers@ == outbound_headers_spec(
                inbound.headers@,
                opt_string_view(inbound.peer_address),
            ),
    {
        let query: Option<&str> = match &inbound.query {
            Some(q) => Some(q.as_str()),
            None => None,
        };
        let uri = self.forward_uri(inbound.path.as_str(), query);
        let existing: Option<String> = match inbound.headers.get_first("X-Forwarded-For") {
            Some(v) => Some(v.clone()),
            None => None,
        };
        let existing_ref: Option<&str> = match &existing {
            Some(v) => Some(v.as_str()),
            None => None,
        };
        let peer_ref: Option<&str> = match &inbound.peer_address {
            Some(p) => Some(p.as_str()),
            None => None,
        };
        let xff = x_forwarded_for_value(existing_ref, peer_ref);
        let mut headers = inbound.headers.clone();
        headers.set_header("X-Forwarded-For", xff);
        request_hygiene(&mut headers);
        OutboundRequest { method: inbound.method.clone(), uri, headers }
    }
}

/// Builds the downstream response once the upstream has answered: the
/// upstream status verbatim, and the upstream header set after response
/// hygiene.
pub fn build_downstream(upstream_status: u16, upstream_headers: &HeaderSet) -> (r:
    DownstreamResponse)
    ensures
        r.status == upstream_status,
        r.headers@ == response_hygiene_spec(upstream_headers@),
{
    let mut headers = upstream_headers.clone();
    response_hygiene(&mut headers);
    DownstreamResponse { status: upstream_status, headers }
}

/// The phases of one exchange.  `Building` and `Sent` are transient;
/// the other three are terminal, and each inbound request maps to exactly
/// one outbound attempt.
#[derive(PartialEq, Eq, Structural, Clone, Copy, Debug)]
pub enum ExchangeState {
    Building,
    Sent,
    Completed,
    TimedOut,
    TransportFailed,
}

/// How the wait for upstream response headers ended.
#[derive(PartialEq, Eq, Structural, Clone, Copy, Debug)]
pub enum UpstreamOutcome {
    Responded(u16),
    TimedOut,
    TransportFailed,
}

impl ExchangeState {
    /// A terminal state: the exchange is over and its resources are
    /// released.
    pub open spec fn is_terminal(self) -> bool {
        self is Completed || self is TimedOut || self is TransportFailed
    }
}

/// The exchange moves from `Building` to `Sent` when the outbound request
/// is handed to the client layer.
pub fn on_dispatch(state: ExchangeState) -> (r: ExchangeState)
    requires
        state is Building,
    ensures
        r is Sent,
{
    ExchangeState::Sent
}

/// The exchange leaves `Sent` on the upstream outcome: a response
/// completes it, a timeout or a transport failure ends it in the matching
/// terminal state.  No outcome is retried.
pub fn on_upstream_outcome(state: ExchangeState, outcome: &UpstreamOutcome) -> (r: ExchangeState)
    requires
        state is Sent,
    ensures
        r.is_terminal(),
        outcome is Responded ==> r is Completed,
        outcome is TimedOut ==> r is TimedOut,
        outcome is TransportFailed ==> r is TransportFailed,
{
    match outcome {
        UpstreamOutcome::Responded(_) => ExchangeState::Completed,
        UpstreamOutcome::TimedOut => ExchangeState::TimedOut,
        UpstreamOutcome::TransportFailed => ExchangeState::TransportFailed,
    }
}

/// The status the original caller sees for each upstream outcome: the
/// upstream's own status verbatim, Gateway Timeout for a timeout, Bad
/// Gateway for a transport failure.
pub fn downstream_status(outcome: &UpstreamOutcome) -> (r: u16)
    ensures
        match outcome {
            UpstreamOutcome::Responded(s) => r == s,
            UpstreamOutcome::TimedOut => r == GATEWAY_TIMEOUT,
            UpstreamOutcome::TransportFailed => r == BAD_GATEWAY,
        },
{
    match outcome {
        UpstreamOutcome::Responded(s) => *s,
        UpstreamOutcome::TimedOut => GATEWAY_TIMEOUT,
        UpstreamOutcome::TransportFailed => BAD_GATEWAY,
    }
}

} // verus!
