//! Header hygiene: the rewriting a proxy must apply to a header set before
//! it crosses a hop.
//!
//! Three operations, applied in this order:
//! 1. `remove_connection_headers` — the `Connection` header names further
//!    per-hop headers; every header named by one of its comma-separated,
//!    whitespace-trimmed tokens is removed.
//! 2. `remove_hop_by_hop_headers` — the fixed hop-by-hop catalog is removed,
//!    except that a catalog header whose current value is empty is kept, and
//!    `Te` is kept when its value is exactly `trailers`.
//! 3. `disable_user_agent_if_not_set` — on the request direction only, an
//!    absent `User-Agent` is defaulted to the empty value so that the
//!    outbound client library cannot substitute its own identity string.

use vstd::prelude::*;

use crate::headers::{has_name, first_value, sans_name, name_eq, HeaderSet};
use crate::text::{split_on, split_str, trim, trim_spec, str_eq};

verus! {

/// The nine hop-by-hop header names of HTTP, connection-scoped and never to
/// be forwarded as such.
pub open spec fn hop_by_hop_names() -> Seq<Seq<char>> {
    seq![
        "Connection"@,
        "Proxy-Connection"@,
        "Keep-Alive"@,
        "Proxy-Authenticate"@,
        "Proxy-Authorization"@,
        "Te"@,
        "Trailer"@,
        "Transfer-Encoding"@,
        "Upgrade"@,
    ]
}

/// Whether `n` is one of the nine hop-by-hop catalog names, up to case.
pub open spec fn is_hop_by_hop(n: Seq<char>) -> bool {
    exists|k: int| 0 <= k < hop_by_hop_names().len() && name_eq(hop_by_hop_names()[k], n)
}

/// One catalog step: remove every entry named `n`, unless the first value
/// under `n` is empty, or `n` is the catalog's `Te` and that value is
/// exactly `trailers`.
pub open spec fn strip_one(hs: Seq<(Seq<char>, Seq<char>)>, n: Seq<char>) -> Seq<
    (Seq<char>, Seq<char>),
> {
    if has_name(hs, n) && (first_value(hs, n) == Seq::<char>::empty() || (n == "Te"@
        && first_value(hs, n) == "trailers"@)) {
        hs
    } else {
        sans_name(hs, n)
    }
}

/// The catalog steps for `names`, applied left to right.
pub open spec fn strip_list(hs: Seq<(Seq<char>, Seq<char>)>, names: Seq<Seq<char>>) -> Seq<
    (Seq<char>, Seq<char>),
>
    decreases names.len(),
{
    if names.len() == 0 {
        hs
    } else {
        strip_list(strip_one(hs, names[0]), names.drop_first())
    }
}

/// The whole hop-by-hop catalog removal.
pub open spec fn strip_hop_by_hop(hs: Seq<(Seq<char>, Seq<char>)>) -> Seq<
    (Seq<char>, Seq<char>),
> {
    strip_list(hs, hop_by_hop_names())
}

/// Removal of every header named by one of `toks` (each token trimmed),
/// left to right.
pub open spec fn remove_listed(hs: Seq<(Seq<char>, Seq<char>)>, toks: Seq<Seq<char>>) -> Seq<
    (Seq<char>, Seq<char>),
>
    decreases toks.len(),
{
    if toks.len() == 0 {
        hs
    } else {
        remove_listed(sans_name(hs, trim_spec(toks[0])), toks.drop_first())
    }
}

/// The `Connection`-directive step: when a `Connection` header is present,
/// every header named by one of the comma-separated tokens of its first
/// value is removed.  `Connection` itself is left to the catalog step.
pub open spec fn connection_removed(hs: Seq<(Seq<char>, Seq<char>)>) -> Seq<
    (Seq<char>, Seq<char>),
> {
    if has_name(hs, "Connection"@) {
        remove_listed(hs, split_on(first_value(hs, "Connection"@), ','))
    } else {
        hs
    }
}

/// The request-direction default: an absent `User-Agent` becomes present
/// with the empty value.
pub open spec fn with_user_agent_default(hs: Seq<(Seq<char>, Seq<char>)>) -> Seq<
    (Seq<char>, Seq<char>),
> {
    if has_name(hs, "User-Agent"@) {
        hs
    } else {
        hs.push(("User-Agent"@, Seq::<char>::empty()))
    }
}

/// Full hygiene for the outbound request's header set.
pub open spec fn request_hygiene_spec(hs: Seq<(Seq<char>, Seq<char>)>) -> Seq<
    (Seq<char>, Seq<char>),
> {
    with_user_agent_default(strip_hop_by_hop(connection_removed(hs)))
}

/// Full hygiene for the downstream response's header set.
pub open spec fn response_hygiene_spec(hs: Seq<(Seq<char>, Seq<char>)>) -> Seq<
    (Seq<char>, Seq<char>),
> {
    strip_hop_by_hop(connection_removed(hs))
}

/// Applies the `Connection`-directive step in place.
pub fn remove_connection_headers(h: &mut HeaderSet)
    ensures
        final(h)@ == connection_removed(old(h)@),
{
    let conn: String = match h.get_first("Connection") {
        Some(v) => v.clone(),
        None => {
            return ;
        },
    };
    let toks = split_str(conn.as_str(), ',');
    let n = toks.len();
    let ghost toks_v = toks.deep_view();
    let mut k: usize = 0;
    proof {
        assert(toks_v.subrange(0, toks_v.len() as int) =~= toks_v);
        assert(toks_v.skip(0) =~= toks_v);
    }
    while k < n
        invariant
            k <= n,
            n == toks_v.len(),
            toks.deep_view() == toks_v,
            remove_listed(old(h)@, toks_v) == remove_listed(h@, toks_v.skip(k as int)),
        decreases n - k,
    {
        proof {
            assert(toks_v.skip(k as int).drop_first() =~= toks_v.skip(k as int + 1));
            assert(toks_v.skip(k as int)[0] == toks_v[k as int]);
        }
        let t = trim(toks[k].as_str());
        h.remove(t);
        k = k + 1;
    }
    proof {
        assert(toks_v.skip(n as int) =~= Seq::<Seq<char>>::empty());
    }
}

/// One catalog removal in place: `strip_one` for `name`.
fn strip_catalog_name(h: &mut HeaderSet, name: &str)
    ensures
        final(h)@ == strip_one(old(h)@, name@),
{
    let te = str_eq(name, "Te");
    let keep: bool = match h.get_first(name) {
        Some(v) => {
            if v.as_str().unicode_len() == 0 {
                proof {
                    assert(v@ =~= Seq::<char>::empty());
                }
                true
            } else {
                let is_trailers = str_eq(v.as_str(), "trailers");
                te && is_trailers
            }
        },
        None => false,
    };
    if !keep {
        h.remove(name);
    }
}

/// Applies the hop-by-hop catalog step in place.
pub fn remove_hop_by_hop_headers(h: &mut HeaderSet)
    ensures
        final(h)@ == strip_hop_by_hop(old(h)@),
{
    let mut names: Vec<String> = Vec::new();
    names.push(String::from_str("Connection"));
    names.push(String::from_str("Proxy-Connection"));
    names.push(String::from_str("Keep-Alive"));
    names.push(String::from_str("Proxy-Authenticate"));
    names.push(String::from_str("Proxy-Authorization"));
    names.push(String::from_str("Te"));
    names.push(String::from_str("Trailer"));
    names.push(String::from_str("Transfer-Encoding"));
    names.push(String::from_str("Upgrade"));
    proof {
        assert(names.deep_view() =~= hop_by_hop_names());
    }
    let ghost cat = hop_by_hop_names();
    let mut k: usize = 0;
    proof {
        assert(cat.skip(0) =~= cat);
    }
    while k < 9
        invariant
            k <= 9,
            names.deep_view() == cat,
            cat == hop_by_hop_names(),
            names@.len() == 9,
            strip_list(old(h)@, cat) == strip_list(h@, cat.skip(k as int)),
        decreases 9 - k,
    {
        proof {
            assert(cat.skip(k as int).drop_first() =~= cat.skip(k as int + 1));
            assert(cat.skip(k as int)[0] == cat[k as int]);
        }
        strip_catalog_name(h, names[k].as_str());
        k = k + 1;
    }
    proof {
        assert(cat.skip(9) =~= Seq::<Seq<char>>::empty());
    }
}

/// Applies the `User-Agent` default in place.
pub fn disable_user_agent_if_not_set(h: &mut HeaderSet)
    ensures
        final(h)@ == with_user_agent_default(old(h)@),
{
    if !h.contains_key("User-Agent") {
        h.push(String::from_str("User-Agent"), String::new());
    }
}

/// Full request-direction hygiene, the three steps in order.
pub fn request_hygiene(h: &mut HeaderSet)
    ensures
        final(h)@ == request_hygiene_spec(old(h)@),
{
    remove_connection_headers(h);
    remove_hop_by_hop_headers(h);
    disable_user_agent_if_not_set(h);
}

/// Full response-direction hygiene: the same cleanup without the
/// `User-Agent` default.
pub fn response_hygiene(h: &mut HeaderSet)
    ensures
        final(h)@ == response_hygiene_spec(old(h)@),
{
    remove_connection_headers(h);
    remove_hop_by_hop_headers(h);
}

} // verus!
