//! A single-hop HTTP reverse-proxy forwarding core.
//!
//! Given an inbound request, the library builds the equivalent outbound
//! request to a fixed upstream: it concatenates the upstream base with the
//! inbound path and query, scrubs hop-by-hop headers, and extends the
//! client-identity forwarding chain.  The host framework performs the actual
//! network I/O and body streaming; everything that decides *what* is sent is
//! verified here.

pub mod headers;
pub mod text;
pub mod hygiene;
pub mod addr;
pub mod chain;
pub mod proxy;
pub mod laws;
