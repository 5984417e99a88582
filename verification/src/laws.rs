//! The guarantees of header hygiene, stated and proved once and for all:
//! what the catalog strip leaves behind, that `Connection`-named headers
//! are gone, that hygiene is idempotent, and that a header set with no
//! hop-by-hop headers passes through response hygiene untouched.

use vstd::prelude::*;

use crate::headers::{
    has_name, first_value, sans_name, name_eq, char_eq_ci, lemma_sans_name_has,
    lemma_sans_name_first_value, lemma_sans_name_absent_identity, lemma_push_has_first,
    lemma_name_eq_equiv,
};
use crate::hygiene::{
    hop_by_hop_names, is_hop_by_hop, strip_one, strip_list, remove_listed, connection_removed,
    request_hygiene_spec, response_hygiene_spec,
};
use crate::text::{split_on, trim_spec};

verus! {

/// The catalog condition for one name: if `n` is still present, the strip
/// step left it deliberately — its first value is empty, or `n` is the
/// catalog's `Te` with the value `trailers`.
pub open spec fn catalog_entry_ok(hs: Seq<(Seq<char>, Seq<char>)>, n: Seq<char>) -> bool {
    has_name(hs, n) ==> (first_value(hs, n) == Seq::<char>::empty() || (n == "Te"@ && first_value(
        hs,
        n,
    ) == "trailers"@))
}

/// No two of `names` are case-variants of each other.
pub open spec fn distinct_names(names: Seq<Seq<char>>) -> bool {
    forall|k: int, l: int|
        0 <= k < l < names.len() ==> !name_eq(#[trigger] names[k], #[trigger] names[l])
}

/// One catalog step does not disturb any other name.
proof fn lemma_strip_one_other(hs: Seq<(Seq<char>, Seq<char>)>, n: Seq<char>, m: Seq<char>)
    requires
        !name_eq(m, n),
    ensures
        has_name(strip_one(hs, n), m) == has_name(hs, m),
        has_name(hs, m) ==> first_value(strip_one(hs, n), m) == first_value(hs, m),
{
    if strip_one(hs, n) != hs {
        lemma_sans_name_has(hs, n, m);
        lemma_sans_name_first_value(hs, n, m);
    }
}

/// One catalog step establishes its own condition.
proof fn lemma_strip_one_ok(hs: Seq<(Seq<char>, Seq<char>)>, n: Seq<char>)
    ensures
        catalog_entry_ok(strip_one(hs, n), n),
{
    if !(has_name(hs, n) && (first_value(hs, n) == Seq::<char>::empty() || (n == "Te"@
        && first_value(hs, n) == "trailers"@))) {
        lemma_sans_name_has(hs, n, n);
    }
}

/// One catalog step never introduces a name.
proof fn lemma_strip_one_no_add(hs: Seq<(Seq<char>, Seq<char>)>, n: Seq<char>, m: Seq<char>)
    ensures
        has_name(strip_one(hs, n), m) ==> has_name(hs, m),
{
    if strip_one(hs, n) != hs {
        lemma_sans_name_has(hs, n, m);
    }
}

/// The catalog steps for `names` do not disturb a name distinct from all
/// of them.
proof fn lemma_strip_list_preserves_other(
    hs: Seq<(Seq<char>, Seq<char>)>,
    names: Seq<Seq<char>>,
    m: Seq<char>,
)
    requires
        forall|k: int| 0 <= k < names.len() ==> !name_eq(m, #[trigger] names[k]),
    ensures
        has_name(strip_list(hs, names), m) == has_name(hs, m),
        has_name(hs, m) ==> first_value(strip_list(hs, names), m) == first_value(hs, m),
    decreases names.len(),
{
    if names.len() > 0 {
        lemma_strip_one_other(hs, names[0], m);
        assert(forall|k: int|
            0 <= k < names.drop_first().len() ==> #[trigger] names.drop_first()[k] == names[k
                + 1]);
        lemma_strip_list_preserves_other(strip_one(hs, names[0]), names.drop_first(), m);
    }
}

/// The catalog steps never introduce a name.
proof fn lemma_strip_list_no_add(
    hs: Seq<(Seq<char>, Seq<char>)>,
    names: Seq<Seq<char>>,
    m: Seq<char>,
)
    ensures
        has_name(strip_list(hs, names), m) ==> has_name(hs, m),
    decreases names.len(),
{
    if names.len() > 0 {
        lemma_strip_one_no_add(hs, names[0], m);
        lemma_strip_list_no_add(strip_one(hs, names[0]), names.drop_first(), m);
    }
}

/// After the catalog steps, every stripped name meets its condition.
proof fn lemma_strip_list_ok(hs: Seq<(Seq<char>, Seq<char>)>, names: Seq<Seq<char>>)
    requires
        distinct_names(names),
    ensures
        forall|k: int|
            0 <= k < names.len() ==> catalog_entry_ok(strip_list(hs, names), #[trigger] names[k]),
    decreases names.len(),
{
    if names.len() > 0 {
        let h1 = strip_one(hs, names[0]);
        lemma_strip_one_ok(hs, names[0]);
        assert(forall|k: int|
            0 <= k < names.drop_first().len() ==> #[trigger] names.drop_first()[k] == names[k
                + 1]);
        lemma_strip_list_ok(h1, names.drop_first());
        assert(forall|k: int| 0 <= k < names.drop_first().len() ==> !name_eq(
            names[0],
            #[trigger] names.drop_first()[k],
        ));
        lemma_strip_list_preserves_other(h1, names.drop_first(), names[0]);
        assert(forall|k: int|
            0 <= k < names.len() ==> catalog_entry_ok(strip_list(hs, names), #[trigger] names[k]))
            by {
            assert(catalog_entry_ok(strip_list(hs, names), names[0]));
            assert(forall|k: int| 1 <= k < names.len() ==> catalog_entry_ok(
                strip_list(hs, names),
                #[trigger] names[k],
            )) by {
                assert(forall|k: int|
                    1 <= k < names.len() ==> names[k] == names.drop_first()[k - 1]);
            }
        }
    }
}

/// A name that survives the catalog steps kept its first value.
proof fn lemma_strip_list_survivor(
    hs: Seq<(Seq<char>, Seq<char>)>,
    names: Seq<Seq<char>>,
    k: int,
)
    requires
        distinct_names(names),
        0 <= k < names.len(),
        has_name(strip_list(hs, names), names[k]),
    ensures
        has_name(hs, names[k]),
        first_value(strip_list(hs, names), names[k]) == first_value(hs, names[k]),
    decreases names.len(),
{
    let h1 = strip_one(hs, names[0]);
    assert(forall|j: int|
        0 <= j < names.drop_first().len() ==> #[trigger] names.drop_first()[j] == names[j + 1]);
    if k == 0 {
        assert(forall|j: int| 0 <= j < names.drop_first().len() ==> !name_eq(
            names[0],
            #[trigger] names.drop_first()[j],
        ));
        lemma_strip_list_preserves_other(h1, names.drop_first(), names[0]);
        if h1 != hs {
            lemma_sans_name_has(hs, names[0], names[0]);
        }
    } else {
        lemma_name_eq_equiv(names[k], names[0], names[0]);
        lemma_strip_list_survivor(h1, names.drop_first(), k - 1);
        lemma_strip_one_other(hs, names[0], names[k]);
    }
}

/// A name that survives the directive removals kept its first value.
proof fn lemma_remove_listed_survivor(
    hs: Seq<(Seq<char>, Seq<char>)>,
    toks: Seq<Seq<char>>,
    m: Seq<char>,
)
    ensures
        has_name(remove_listed(hs, toks), m) ==> (has_name(hs, m) && first_value(
            remove_listed(hs, toks),
            m,
        ) == first_value(hs, m)),
    decreases toks.len(),
{
    if toks.len() > 0 {
        let t = trim_spec(toks[0]);
        let h1 = sans_name(hs, t);
        lemma_remove_listed_survivor(h1, toks.drop_first(), m);
        if has_name(remove_listed(hs, toks), m) {
            lemma_sans_name_has(hs, t, m);
            lemma_sans_name_first_value(hs, t, m);
        }
    }
}

/// After the directive removals, no header named by a (trimmed) token
/// remains.
proof fn lemma_remove_listed_removes(
    hs: Seq<(Seq<char>, Seq<char>)>,
    toks: Seq<Seq<char>>,
    k: int,
)
    requires
        0 <= k < toks.len(),
    ensures
        !has_name(remove_listed(hs, toks), trim_spec(toks[k])),
    decreases toks.len(),
{
    let t = trim_spec(toks[0]);
    let h1 = sans_name(hs, t);
    if k == 0 {
        lemma_sans_name_has(hs, t, t);
        lemma_remove_listed_survivor(h1, toks.drop_first(), t);
    } else {
        assert(toks.drop_first()[k - 1] == toks[k]);
        lemma_remove_listed_removes(h1, toks.drop_first(), k - 1);
    }
}

/// When every listed name already meets its condition, the catalog steps
/// change nothing.
proof fn lemma_strip_list_identity(hs: Seq<(Seq<char>, Seq<char>)>, names: Seq<Seq<char>>)
    requires
        forall|k: int| 0 <= k < names.len() ==> catalog_entry_ok(hs, #[trigger] names[k]),
    ensures
        strip_list(hs, names) == hs,
    decreases names.len(),
{
    if names.len() > 0 {
        assert(catalog_entry_ok(hs, names[0]));
        if !has_name(hs, names[0]) {
            lemma_sans_name_absent_identity(hs, names[0]);
        }
        assert(strip_one(hs, names[0]) == hs);
        assert(forall|k: int|
            0 <= k < names.drop_first().len() ==> #[trigger] names.drop_first()[k] == names[k
                + 1]);
        lemma_strip_list_identity(hs, names.drop_first());
    }
}

/// The concrete facts about the catalog names: nine of them, none a
/// case-variant of another or of `User-Agent`, none empty, `Connection`
/// first and not `Te`.
proof fn lemma_catalog_facts()
    ensures
        hop_by_hop_names().len() == 9,
        hop_by_hop_names()[0] == "Connection"@,
        hop_by_hop_names()[0] != "Te"@,
        distinct_names(hop_by_hop_names()),
        forall|k: int| 0 <= k < 9 ==> !name_eq("User-Agent"@, #[trigger] hop_by_hop_names()[k]),
        forall|k: int| 0 <= k < 9 ==> (#[trigger] hop_by_hop_names()[k]).len() > 0,
        "User-Agent"@.len() > 0,
{
    reveal_strlit("Connection");
    reveal_strlit("Proxy-Connection");
    reveal_strlit("Keep-Alive");
    reveal_strlit("Proxy-Authenticate");
    reveal_strlit("Proxy-Authorization");
    reveal_strlit("Te");
    reveal_strlit("Trailer");
    reveal_strlit("Transfer-Encoding");
    reveal_strlit("Upgrade");
    reveal_strlit("User-Agent");
    assert("Connection"@.len() == 10);
    assert("Proxy-Connection"@.len() == 16);
    assert("Keep-Alive"@.len() == 10);
    assert("Proxy-Authenticate"@.len() == 18);
    assert("Proxy-Authorization"@.len() == 19);
    assert("Te"@.len() == 2);
    assert("Trailer"@.len() == 7);
    assert("Transfer-Encoding"@.len() == 17);
    assert("Upgrade"@.len() == 7);
    assert("User-Agent"@.len() == 10);
    assert(!name_eq("Connection"@, "Keep-Alive"@)) by {
        if name_eq("Connection"@, "Keep-Alive"@) {
            assert(char_eq_ci("Connection"@[0], "Keep-Alive"@[0]));
        }
    }
    assert(!name_eq("Trailer"@, "Upgrade"@)) by {
        if name_eq("Trailer"@, "Upgrade"@) {
            assert(char_eq_ci("Trailer"@[0], "Upgrade"@[0]));
        }
    }
    assert(!name_eq("User-Agent"@, "Connection"@)) by {
        if name_eq("User-Agent"@, "Connection"@) {
            assert(char_eq_ci("User-Agent"@[0], "Connection"@[0]));
        }
    }
    assert(!name_eq("User-Agent"@, "Keep-Alive"@)) by {
        if name_eq("User-Agent"@, "Keep-Alive"@) {
            assert(char_eq_ci("User-Agent"@[0], "Keep-Alive"@[0]));
        }
    }
}

/// After request hygiene, a hop-by-hop catalog name can remain only as
/// `Te` whose first value is exactly `trailers` — except for a catalog
/// header that came in with an empty first value, which the strip step
/// leaves in place deliberately; the inner hypothesis sets those aside,
/// name by name.
pub proof fn lemma_request_hygiene_strips_hop_by_hop(h: Seq<(Seq<char>, Seq<char>)>)
    ensures
        forall|k: int|
            0 <= k < hop_by_hop_names().len() ==> ((first_value(h, #[trigger] hop_by_hop_names()[k])
                != Seq::<char>::empty() && has_name(
                request_hygiene_spec(h),
                hop_by_hop_names()[k],
            )) ==> hop_by_hop_names()[k] == "Te"@ && first_value(
                request_hygiene_spec(h),
                hop_by_hop_names()[k],
            ) == "trailers"@),
{
    lemma_catalog_facts();
    let cat = hop_by_hop_names();
    let h1 = connection_removed(h);
    let h2 = strip_list(h1, cat);
    let h3 = request_hygiene_spec(h);
    let ua = ("User-Agent"@, Seq::<char>::empty());
    lemma_strip_list_ok(h1, cat);
    assert forall|k: int|
        0 <= k < cat.len() && first_value(h, #[trigger] cat[k]) != Seq::<char>::empty()
            && has_name(h3, cat[k]) implies cat[k] == "Te"@ && first_value(h3, cat[k])
        == "trailers"@ by {
        if h3 != h2 {
            lemma_push_has_first(h2, ua, cat[k]);
        }
        assert(has_name(h2, cat[k]));
        lemma_strip_list_survivor(h1, cat, k);
        if h1 != h {
            lemma_remove_listed_survivor(
                h,
                split_on(first_value(h, "Connection"@), ','),
                cat[k],
            );
        }
        assert(first_value(h2, cat[k]) == first_value(h, cat[k]));
        assert(catalog_entry_ok(h2, cat[k]));
        assert(cat[k] == "Te"@ && first_value(h2, cat[k]) == "trailers"@);
        if h3 != h2 {
            lemma_push_has_first(h2, ua, cat[k]);
        }
    }
}

/// Every header named by a (trimmed) token of the `Connection` value is
/// gone after request hygiene, and so is `Connection` itself.  A token
/// naming `User-Agent` is left out: the request-direction default would
/// put that header back.
pub proof fn lemma_connection_directives_removed(h: Seq<(Seq<char>, Seq<char>)>, k: int)
    requires
        has_name(h, "Connection"@),
        first_value(h, "Connection"@) != Seq::<char>::empty(),
        0 <= k < split_on(first_value(h, "Connection"@), ',').len(),
        !name_eq(
            trim_spec(split_on(first_value(h, "Connection"@), ',')[k]),
            "User-Agent"@,
        ),
    ensures
        !has_name(
            request_hygiene_spec(h),
            trim_spec(split_on(first_value(h, "Connection"@), ',')[k]),
        ),
        !has_name(request_hygiene_spec(h), "Connection"@),
{
    lemma_catalog_facts();
    let cat = hop_by_hop_names();
    let toks = split_on(first_value(h, "Connection"@), ',');
    let t = trim_spec(toks[k]);
    let h1 = connection_removed(h);
    let h2 = strip_list(h1, cat);
    let ua = ("User-Agent"@, Seq::<char>::empty());
    lemma_remove_listed_removes(h, toks, k);
    lemma_strip_list_no_add(h1, cat, t);
    lemma_name_eq_equiv(t, "User-Agent"@, t);
    if request_hygiene_spec(h) != h2 {
        lemma_push_has_first(h2, ua, t);
        lemma_push_has_first(h2, ua, "Connection"@);
    }
    lemma_strip_list_ok(h1, cat);
    if has_name(h2, "Connection"@) {
        lemma_strip_list_survivor(h1, cat, 0);
        lemma_remove_listed_survivor(h, toks, "Connection"@);
        assert(catalog_entry_ok(h2, "Connection"@));
        assert(false);
    }
}

/// Request hygiene is idempotent: a second pass over any header set
/// changes nothing beyond what the first already did.
pub proof fn lemma_request_hygiene_idempotent(h: Seq<(Seq<char>, Seq<char>)>)
    ensures
        request_hygiene_spec(request_hygiene_spec(h)) == request_hygiene_spec(h),
{
    lemma_catalog_facts();
    let cat = hop_by_hop_names();
    let h1 = connection_removed(h);
    let h2 = strip_list(h1, cat);
    let h3 = request_hygiene_spec(h);
    let ua = ("User-Agent"@, Seq::<char>::empty());
    lemma_strip_list_ok(h1, cat);
    assert(forall|j: int| 0 <= j < cat.len() ==> catalog_entry_ok(h3, #[trigger] cat[j])) by {
        assert forall|j: int| 0 <= j < cat.len() implies catalog_entry_ok(
            h3,
            #[trigger] cat[j],
        ) by {
            if h3 != h2 {
                lemma_push_has_first(h2, ua, cat[j]);
            }
        }
    }
    // Second pass, directive step: the only `Connection` that can remain
    // carries an empty value, whose lone token names no well-formed header.
    assert(connection_removed(h3) == h3) by {
        if has_name(h3, "Connection"@) {
            reveal_with_fuel(remove_listed, 3);
            let empty_name = Seq::<char>::empty();
            let toks2 = split_on(empty_name, ',');
            assert(toks2 == seq![empty_name]);
            assert(trim_spec(empty_name) == empty_name);
            assert(toks2.drop_first() =~= Seq::<Seq<char>>::empty());
            // The surviving `Connection` carries the empty value, all the
            // way back to the input set.
            if h3 != h2 {
                lemma_push_has_first(h2, ua, "Connection"@);
            }
            assert(has_name(h2, "Connection"@));
            lemma_strip_list_survivor(h1, cat, 0);
            assert(catalog_entry_ok(h2, "Connection"@));
            assert(first_value(h1, "Connection"@) == empty_name);
            // So the first pass's directive step already removed every
            // entry with an empty name, and nothing put one back.
            assert(has_name(h, "Connection"@));
            lemma_remove_listed_survivor(h, split_on(first_value(h, "Connection"@), ','), "Connection"@);
            assert(first_value(h, "Connection"@) == empty_name);
            assert(h1 == remove_listed(h, toks2));
            lemma_sans_name_has(h, empty_name, empty_name);
            assert(!has_name(h1, empty_name));
            lemma_strip_list_no_add(h1, cat, empty_name);
            if h3 != h2 {
                lemma_push_has_first(h2, ua, empty_name);
            }
            assert(!has_name(h3, empty_name));
            lemma_sans_name_absent_identity(h3, empty_name);
            assert(remove_listed(h3, toks2) == h3);
        }
    }
    lemma_strip_list_identity(h3, cat);
    assert(has_name(h3, "User-Agent"@)) by {
        if h3 != h2 {
            lemma_push_has_first(h2, ua, "User-Agent"@);
        }
    }
    assert(request_hygiene_spec(h3) == h3);
}

/// A header set with no hop-by-hop header passes through response hygiene
/// unchanged: together with `build_downstream`'s contract, the downstream
/// response of a clean upstream response is byte-identical to it.
pub proof fn lemma_response_hygiene_transparent(h: Seq<(Seq<char>, Seq<char>)>)
    requires
        forall|i: int| 0 <= i < h.len() ==> !is_hop_by_hop((#[trigger] h[i]).0),
    ensures
        response_hygiene_spec(h) == h,
{
    lemma_catalog_facts();
    let cat = hop_by_hop_names();
    assert forall|k: int| 0 <= k < cat.len() implies !has_name(h, #[trigger] cat[k]) by {
        if has_name(h, cat[k]) {
            let i = choose|i: int| 0 <= i < h.len() && name_eq(h[i].0, cat[k]);
            lemma_name_eq_equiv(h[i].0, cat[k], cat[k]);
            assert(name_eq(cat[k], h[i].0));
            assert(is_hop_by_hop(h[i].0));
        }
    }
    assert(!has_name(h, "Connection"@));
    lemma_strip_list_identity(h, cat);
}

} // verus!
