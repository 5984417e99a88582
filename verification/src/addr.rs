//! The textual address forms the forwarding chain accepts.
//!
//! A peer address is either `ip:port` (an IPv4 address followed by a port,
//! or an IPv6 address in brackets, with an optional `%`-scope suffix,
//! followed by a port) or a bare IP address.  The grammar is fixed here:
//! an IPv4 address is four decimal octets up to 255 with no leading zeros;
//! an IPv6 address is up to eight 16-bit groups of one to four hex digits
//! separated by `:`, where the last two groups may instead be written as
//! an embedded IPv4 address (`::ffff:1.2.3.4`) and at most one `::` stands
//! for the elided groups; a scope id is a decimal interface index up to
//! 2^32 - 1; a port is up to five decimal digits up to 65535.
//!
//! The IP text is relayed as written — stripping the port, the brackets
//! and the scope suffix is the only rewriting.  An address is deliberately
//! not reformatted into a canonical spelling (`[FE80::0001]:80` yields
//! `FE80::0001`): the chain records what the peer presented, and its
//! consumers must compare addresses structurally in any case.

use vstd::prelude::*;

use crate::text::{split_on, split_str, all_digits, dec_value, is_digit, parse_decimal, pow10};

verus! {

/// A hexadecimal digit, either case.
pub open spec fn is_hex_digit(c: char) -> bool {
    is_digit(c) || (97 <= c as int && c as int <= 102) || (65 <= c as int && c as int <= 70)
}

/// One IPv4 octet: one to three decimal digits, at most 255, no leading
/// zero.
pub open spec fn is_octet(s: Seq<char>) -> bool {
    &&& 1 <= s.len() <= 3
    &&& all_digits(s)
    &&& dec_value(s) <= 255
    &&& (s.len() == 1 || s[0] != '0')
}

/// Four octets separated by dots.
pub open spec fn is_ipv4(s: Seq<char>) -> bool {
    let ps = split_on(s, '.');
    &&& ps.len() == 4
    &&& forall|i: int| 0 <= i < 4 ==> is_octet(#[trigger] ps[i])
}

/// One IPv6 group: one to four hex digits.
pub open spec fn hex_group(s: Seq<char>) -> bool {
    &&& 1 <= s.len() <= 4
    &&& forall|i: int| 0 <= i < s.len() ==> is_hex_digit(s[i])
}

/// The groups of `gs` with indices in `[a, b)` are all present (non-empty)
/// and hexadecimal.
pub open spec fn groups_hex(gs: Seq<Seq<char>>, a: int, b: int) -> bool {
    forall|j: int| a <= j < b ==> (#[trigger] gs[j]).len() > 0 && hex_group(gs[j])
}

/// An IPv6 address: eight hex groups, or six hex groups and an embedded
/// IPv4 address standing for the last two, or fewer groups with one `::`
/// (at the start, the end, in the middle, or as the whole address)
/// standing for the elided zero groups.
pub open spec fn is_ipv6(s: Seq<char>) -> bool {
    let gs = split_on(s, ':');
    let n = gs.len() as int;
    ||| (n == 8 && groups_hex(gs, 0, 8))
    ||| (n == 7 && groups_hex(gs, 0, 6) && is_ipv4(gs[6]))
    ||| (n <= 8 && exists|k: int|
        1 <= k <= n - 2 && (#[trigger] gs[k]).len() == 0 && groups_hex(gs, 0, k) && groups_hex(
            gs,
            k + 1,
            n,
        ))
    ||| (n <= 7 && exists|k: int|
        1 <= k <= n - 2 && (#[trigger] gs[k]).len() == 0 && groups_hex(gs, 0, k) && groups_hex(
            gs,
            k + 1,
            n - 1,
        ) && is_ipv4(gs[n - 1]))
    ||| (3 <= n <= 9 && gs[0].len() == 0 && gs[1].len() == 0 && groups_hex(gs, 2, n))
    ||| (3 <= n <= 8 && gs[0].len() == 0 && gs[1].len() == 0 && groups_hex(gs, 2, n - 1)
        && is_ipv4(gs[n - 1]))
    ||| (3 <= n <= 9 && gs[n - 1].len() == 0 && gs[n - 2].len() == 0 && groups_hex(gs, 0, n - 2))
    ||| (n == 3 && gs[0].len() == 0 && gs[1].len() == 0 && gs[2].len() == 0)
}

/// A bare IP address, of either family.
pub open spec fn is_ip(s: Seq<char>) -> bool {
    is_ipv4(s) || is_ipv6(s)
}

/// A port: one to five decimal digits, at most 65535.
pub open spec fn is_port(s: Seq<char>) -> bool {
    &&& 1 <= s.len() <= 5
    &&& all_digits(s)
    &&& dec_value(s) <= 65535
}

/// The index of the last occurrence of `c` in `s`, or -1.
pub open spec fn last_index_of(s: Seq<char>, c: char) -> int
    decreases s.len(),
{
    if s.len() == 0 {
        -1
    } else if s.last() == c {
        s.len() - 1
    } else {
        last_index_of(s.drop_last(), c)
    }
}

/// The last index of `c` stays within `s`, and points at `c`.
pub proof fn lemma_last_index_of_bounds(s: Seq<char>, c: char)
    ensures
        -1 <= last_index_of(s, c) < s.len(),
        last_index_of(s, c) >= 0 ==> s[last_index_of(s, c)] == c,
    decreases s.len(),
{
    if s.len() > 0 && s.last() != c {
        lemma_last_index_of_bounds(s.drop_last(), c);
    }
}

/// A scope id, as a bracketed IPv6 socket form may carry after `%`: a
/// decimal interface index that fits 32 bits.
pub open spec fn is_scope_id(s: Seq<char>) -> bool {
    &&& 1 <= s.len() <= 10
    &&& all_digits(s)
    &&& dec_value(s) <= 4294967295
}

/// An IPv6 address with an optional `%`-scope suffix.
pub open spec fn is_v6_with_scope(t: Seq<char>) -> bool {
    ||| is_ipv6(t)
    ||| {
        let p = last_index_of(t, '%');
        &&& p >= 1
        &&& is_ipv6(t.subrange(0, p))
        &&& is_scope_id(t.subrange(p + 1, t.len() as int))
    }
}

/// The address part of an IPv6 text with an optional scope suffix: the
/// suffix, if any, is dropped.
pub open spec fn v6_of_scoped(t: Seq<char>) -> Seq<char> {
    if is_ipv6(t) {
        t
    } else {
        t.subrange(0, last_index_of(t, '%'))
    }
}

/// An address with a port: the text before the last colon is an IPv4
/// address or a bracketed IPv6 address (scope suffix allowed), the text
/// after it a port.
pub open spec fn is_sock_addr(s: Seq<char>) -> bool {
    let j = last_index_of(s, ':');
    &&& j >= 0
    &&& is_port(s.subrange(j + 1, s.len() as int))
    &&& {
        let ip = s.subrange(0, j);
        ||| is_ipv4(ip)
        ||| (ip.len() >= 2 && ip[0] == '[' && ip.last() == ']' && is_v6_with_scope(
            ip.subrange(1, ip.len() - 1),
        ))
    }
}

/// The IP text of an address with a port: what stands before the last
/// colon, without the brackets and scope suffix of an IPv6 address.
pub open spec fn sock_ip(s: Seq<char>) -> Seq<char> {
    let j = last_index_of(s, ':');
    let ip = s.subrange(0, j);
    if is_ipv4(ip) {
        ip
    } else {
        v6_of_scoped(ip.subrange(1, ip.len() - 1))
    }
}

fn is_hex_digit_exec(c: char) -> (r: bool)
    ensures
        r == is_hex_digit(c),
{
    let cu = c as u32;
    (48 <= cu && cu <= 57) || (97 <= cu && cu <= 102) || (65 <= cu && cu <= 70)
}

/// Decides whether `s` is one IPv4 octet.
fn is_octet_str(s: &str) -> (r: bool)
    ensures
        r == is_octet(s@),
{
    match parse_decimal(s) {
        Some(v) => {
            if s.unicode_len() > 3 || v > 255 {
                return false;
            }
            if s.unicode_len() > 1 && s.get_char(0) == '0' {
                return false;
            }
            true
        },
        None => false,
    }
}

/// Decides whether `s` is an IPv4 address.
pub fn is_ipv4_str(s: &str) -> (r: bool)
    ensures
        r == is_ipv4(s@),
{
    let ps = split_str(s, '.');
    if ps.len() != 4 {
        return false;
    }
    let ghost psv = ps.deep_view();
    for i in 0..4usize
        invariant
            ps.deep_view() == psv,
            psv == split_on(s@, '.'),
            ps@.len() == 4,
            forall|j: int| 0 <= j < i ==> is_octet(#[trigger] psv[j]),
    {
        if !is_octet_str(ps[i].as_str()) {
            proof {
                assert(!is_octet(psv[i as int]));
            }
            return false;
        }
    }
    true
}

/// Decides whether `s` is one IPv6 hex group.
fn is_hex_group_str(s: &str) -> (r: bool)
    ensures
        r == hex_group(s@),
{
    let len = s.unicode_len();
    if len < 1 || len > 4 {
        return false;
    }
    for i in 0..len
        invariant
            len == s@.len(),
            1 <= len <= 4,
            forall|j: int| 0 <= j < i ==> is_hex_digit(s@[j]),
    {
        if !is_hex_digit_exec(s.get_char(i)) {
            return false;
        }
    }
    true
}

/// Decides whether `s` is an IPv6 address.
pub fn is_ipv6_str(s: &str) -> (r: bool)
    ensures
        r == is_ipv6(s@),
{
    let gs = split_str(s, ':');
    let n = gs.len();
    let ghost gsv = gs.deep_view();
    // Scan the groups once: where the empty ones stand, and whether every
    // non-empty one before the last is a hex group.
    let mut count_empty: usize = 0;
    let mut e1: usize = n;
    let mut e2: usize = n;
    let mut e3: usize = n;
    let mut all_hex: bool = true;
    let ghost mut bad: int = 0;
    for i in 0..n
        invariant
            n >= 1,
            n == gsv.len(),
            gs.deep_view() == gsv,
            gsv == split_on(s@, ':'),
            count_empty <= i,
            count_empty == 0 ==> forall|j: int| 0 <= j < i ==> (#[trigger] gsv[j]).len() > 0,
            count_empty == 1 ==> e1 < i && gsv[e1 as int].len() == 0 && forall|j: int|
                0 <= j < i && j != e1 ==> (#[trigger] gsv[j]).len() > 0,
            count_empty == 2 ==> e1 < e2 < i && gsv[e1 as int].len() == 0
                && gsv[e2 as int].len() == 0 && forall|j: int|
                0 <= j < i && j != e1 && j != e2 ==> (#[trigger] gsv[j]).len() > 0,
            count_empty >= 3 ==> e1 < e2 < e3 < i && gsv[e1 as int].len() == 0
                && gsv[e2 as int].len() == 0 && gsv[e3 as int].len() == 0,
            all_hex ==> forall|j: int|
                0 <= j < i && j < n - 1 ==> (#[trigger] gsv[j]).len() == 0 || hex_group(gsv[j]),
            !all_hex ==> 0 <= bad < n - 1 && gsv[bad].len() > 0 && !hex_group(gsv[bad]),
    {
        let g = gs[i].as_str();
        if g.unicode_len() == 0 {
            if count_empty == 0 {
                e1 = i;
            } else if count_empty == 1 {
                e2 = i;
            } else if count_empty == 2 {
                e3 = i;
            }
            if count_empty < 3 {
                count_empty = count_empty + 1;
            }
        } else {
            if i + 1 < n && !is_hex_group_str(g) {
                if all_hex {
                    all_hex = false;
                    proof {
                        bad = i as int;
                    }
                }
            }
        }
    }
    // The last group may be a hex group, an embedded IPv4 address standing
    // for the last two groups, or empty (a trailing `::`).
    let last = gs[n - 1].as_str();
    let last_hex = is_hex_group_str(last);
    let last_v4 = is_ipv4_str(last);
    if count_empty == 0 {
        (n == 8 && all_hex && last_hex) || (n == 7 && all_hex && last_v4)
    } else if count_empty == 1 {
        all_hex && n >= 3 && 1 <= e1 && e1 <= n - 2 && ((n <= 8 && last_hex) || (n <= 7
            && last_v4))
    } else if count_empty == 2 {
        all_hex && ((e1 == 0 && e2 == 1 && 3 <= n && ((n <= 9 && last_hex) || (n <= 8 && last_v4)))
            || (3 <= n && n <= 9 && e1 == n - 2 && e2 == n - 1))
    } else {
        n == 3
    }
}

/// Decides whether `s` is a scope id.
pub fn is_scope_id_str(s: &str) -> (r: bool)
    ensures
        r == is_scope_id(s@),
{
    let len = s.unicode_len();
    if len < 1 || len > 10 {
        return false;
    }
    let mut acc: u64 = 0;
    let mut i: usize = 0;
    proof {
        assert(s@.subrange(0, 0) =~= Seq::<char>::empty());
    }
    while i < len
        invariant
            i <= len,
            len == s@.len(),
            1 <= len <= 10,
            all_digits(s@.subrange(0, i as int)),
            acc as int == dec_value(s@.subrange(0, i as int)),
            (acc as int) < pow10(i as nat),
        decreases len - i,
    {
        let c = s.get_char(i);
        let cu = c as u32;
        if !(48 <= cu && cu <= 57) {
            proof {
                assert(!is_digit(s@[i as int]));
            }
            return false;
        }
        proof {
            assert(s@.subrange(0, i as int + 1).drop_last() =~= s@.subrange(0, i as int));
            assert(pow10(i as nat + 1) == 10 * pow10(i as nat));
            reveal_with_fuel(pow10, 11);
        }
        acc = acc * 10 + ((cu - 48) as u64);
        i = i + 1;
    }
    proof {
        assert(s@.subrange(0, len as int) =~= s@);
    }
    acc <= 4294967295
}

} // verus!
