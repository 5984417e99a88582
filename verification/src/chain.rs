//! The client-identity forwarding chain.
//!
//! The chain is a comma-space-separated list of IP addresses, oldest first.
//! It is only ever appended to: the caller's peer address, stripped of its
//! port, brackets and scope suffix, goes at the end.  An address that
//! parses neither as `ip:port` nor as a bare IP leaves the chain unchanged
//! — the chain never holds a fabricated entry.

use vstd::prelude::*;

use crate::addr::{
    is_ip, is_sock_addr, sock_ip, last_index_of, is_ipv4_str, is_ipv6_str, is_scope_id_str,
    lemma_last_index_of_bounds,
};
use crate::text::parse_decimal;

verus! {

/// `chain` with `ip` appended; a `", "` separator joins two non-empty
/// parts.
pub open spec fn chain_append(chain: Seq<char>, ip: Seq<char>) -> Seq<char> {
    if chain.len() == 0 {
        ip
    } else {
        chain + ", "@ + ip
    }
}

/// `chain` extended by the peer address `addr`: its IP text when `addr` is
/// `ip:port`, `addr` itself when it is a bare IP, and no change otherwise.
pub open spec fn chain_extend(chain: Seq<char>, addr: Seq<char>) -> Seq<char> {
    if is_sock_addr(addr) {
        chain_append(chain, sock_ip(addr))
    } else if is_ip(addr) {
        chain_append(chain, addr)
    } else {
        chain
    }
}

/// Appends `client_ip` to the chain, separating with `", "` when the chain
/// is not empty.
pub fn add_client_ip(fwd_header_value: &mut String, client_ip: &str)
    ensures
        final(fwd_header_value)@ == chain_append(old(fwd_header_value)@, client_ip@),
{
    if !fwd_header_value.as_str().is_empty() {
        fwd_header_value.append(", ");
    }
    fwd_header_value.append(client_ip);
}

/// The index of the last occurrence of `c` in `s`, if any.
fn rfind_char(s: &str, c: char) -> (r: Option<usize>)
    ensures
        match r {
            Some(j) => last_index_of(s@, c) == j as int,
            None => last_index_of(s@, c) == -1,
        },
{
    let len = s.unicode_len();
    let mut i: usize = len;
    proof {
        assert(s@.subrange(0, len as int) =~= s@);
    }
    while i > 0
        invariant
            i <= len,
            len == s@.len(),
            last_index_of(s@, c) == last_index_of(s@.subrange(0, i as int), c),
        decreases i,
    {
        if s.get_char(i - 1) == c {
            proof {
                assert(s@.subrange(0, i as int).last() == s@[i as int - 1]);
            }
            return Some(i - 1);
        }
        proof {
            assert(s@.subrange(0, i as int).drop_last() =~= s@.subrange(0, i as int - 1));
        }
        i = i - 1;
    }
    proof {
        assert(s@.subrange(0, 0) =~= Seq::<char>::empty());
    }
    None
}

/// Parses the peer address and appends its IP to the chain: the IP part of
/// an `ip:port` form, a bare IP as written; an unparseable address is
/// ignored.
pub fn parse_and_add_client_ip(fwd_header_value: &mut String, client_address: &str)
    ensures
        final(fwd_header_value)@ == chain_extend(old(fwd_header_value)@, client_address@),
{
    let len = client_address.unicode_len();
    proof {
        lemma_last_index_of_bounds(client_address@, ':');
    }
    if let Some(j) = rfind_char(client_address, ':') {
        let ip = client_address.substring_char(0, j);
        let port = client_address.substring_char(j + 1, len);
        let port_ok = match parse_decimal(port) {
            Some(v) => v <= 65535,
            None => false,
        };
        if port_ok {
            if is_ipv4_str(ip) {
                add_client_ip(fwd_header_value, ip);
                return ;
            }
            let ip_len = ip.unicode_len();
            if ip_len >= 2 && ip.get_char(0) == '[' && ip.get_char(ip_len - 1) == ']' {
                proof {
                    assert(ip@.last() == ip@[ip@.len() - 1]);
                }
                let inner = ip.substring_char(1, ip_len - 1);
                if is_ipv6_str(inner) {
                    add_client_ip(fwd_header_value, inner);
                    return ;
                }
                let inner_len = inner.unicode_len();
                proof {
                    lemma_last_index_of_bounds(inner@, '%');
                }
                if let Some(p) = rfind_char(inner, '%') {
                    if p >= 1 {
                        let v6_part = inner.substring_char(0, p);
                        let scope = inner.substring_char(p + 1, inner_len);
                        if is_ipv6_str(v6_part) && is_scope_id_str(scope) {
                            add_client_ip(fwd_header_value, v6_part);
                            return ;
                        }
                    }
                }
            }
        }
    }
    if is_ipv4_str(client_address) || is_ipv6_str(client_address) {
        add_client_ip(fwd_header_value, client_address);
    }
}

/// The view of an optional string.
pub open spec fn opt_view(o: Option<&str>) -> Option<Seq<char>> {
    match o {
        Some(s) => Some(s@),
        None => None,
    }
}

/// The forwarding-chain header value for one exchange: the inbound chain,
/// extended by the peer address when one is known.
pub open spec fn xff_value_spec(existing: Option<Seq<char>>, peer: Option<Seq<char>>) -> Seq<
    char,
> {
    let start = match existing {
        Some(e) => e,
        None => Seq::<char>::empty(),
    };
    match peer {
        Some(p) => chain_extend(start, p),
        None => start,
    }
}

/// Computes the forwarding-chain header value from the inbound header's
/// value, if any, and the peer address, if known.
pub fn x_forwarded_for_value(existing: Option<&str>, peer_address: Option<&str>) -> (r: String)
    ensures
        r@ == xff_value_spec(opt_view(existing), opt_view(peer_address)),
{
    let mut result: String = match existing {
        Some(e) => String::from_str(e),
        None => String::new(),
    };
    if let Some(p) = peer_address {
        parse_and_add_client_ip(&mut result, p);
    }
    result
}

} // verus!
