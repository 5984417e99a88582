//! Case-insensitive header names and the ordered header set.
//!
//! HTTP header names are compared without regard to ASCII case.  A naive
//! `==` on the name strings is a classic proxy bug, so the comparison is a
//! dedicated spec relation, `name_eq`, and every operation on a `HeaderSet`
//! is specified in terms of it.

use vstd::prelude::*;

verus! {

/// The code point of `c` with an ASCII upper-case letter folded to lower
/// case; every other character is left alone.
pub open spec fn lower_code(c: char) -> int {
    if 65 <= c as int && c as int <= 90 {
        c as int + 32
    } else {
        c as int
    }
}

/// Two characters are equal up to ASCII case.
pub open spec fn char_eq_ci(a: char, b: char) -> bool {
    lower_code(a) == lower_code(b)
}

/// Two header names are equal up to ASCII case.
pub open spec fn name_eq(a: Seq<char>, b: Seq<char>) -> bool {
    &&& a.len() == b.len()
    &&& forall|i: int| 0 <= i < a.len() ==> char_eq_ci(a[i], b[i])
}

fn char_eq_ci_exec(a: char, b: char) -> (r: bool)
    ensures
        r == char_eq_ci(a, b),
{
    let au = a as u32;
    let bu = b as u32;
    let al = if 65 <= au && au <= 90 { au + 32 } else { au };
    let bl = if 65 <= bu && bu <= 90 { bu + 32 } else { bu };
    al == bl
}

/// `name_eq` is an equivalence relation; transitivity and symmetry in one.
pub proof fn lemma_name_eq_equiv(a: Seq<char>, b: Seq<char>, c: Seq<char>)
    ensures
        name_eq(a, a),
        name_eq(a, b) == name_eq(b, a),
        name_eq(a, b) && name_eq(b, c) ==> name_eq(a, c),
{
}

/// Decides case-insensitive equality of two header names.
pub fn header_name_eq(a: &str, b: &str) -> (r: bool)
    ensures
        r == name_eq(a@, b@),
{
    let a_len = a.unicode_len();
    let b_len = b.unicode_len();
    if a_len != b_len {
        return false;
    }
    for i in 0..a_len
        invariant
            a_len == a@.len(),
            b_len == b@.len(),
            a_len == b_len,
            forall|j: int| 0 <= j < i ==> char_eq_ci(a@[j], b@[j]),
    {
        if !char_eq_ci_exec(a.get_char(i), b.get_char(i)) {
            return false;
        }
    }
    true
}

/// One header line: a name and a value.
pub struct HeaderEntry {
    pub name: String,
    pub value: String,
}

impl Clone for HeaderEntry {
    fn clone(&self) -> (r: Self)
        ensures
            r.name@ == self.name@,
            r.value@ == self.value@,
    {
        HeaderEntry { name: self.name.clone(), value: self.value.clone() }
    }
}

/// An ordered header set: the header lines of a request or response, in
/// order, possibly with repeated names.  Names are matched case-insensitively
/// by every operation.
pub struct HeaderSet {
    pub entries: Vec<HeaderEntry>,
}

/// The mathematical content of a list of header lines: a sequence of
/// (name, value) character-sequence pairs.
pub open spec fn entries_view(v: Seq<HeaderEntry>) -> Seq<(Seq<char>, Seq<char>)> {
    Seq::new(v.len(), |i: int| (v[i].name@, v[i].value@))
}

impl View for HeaderSet {
    type V = Seq<(Seq<char>, Seq<char>)>;

    open spec fn view(&self) -> Seq<(Seq<char>, Seq<char>)> {
        entries_view(self.entries@)
    }
}

/// Some entry of `hs` is named `n` (up to case).
pub open spec fn has_name(hs: Seq<(Seq<char>, Seq<char>)>, n: Seq<char>) -> bool {
    exists|i: int| 0 <= i < hs.len() && name_eq(hs[i].0, n)
}

/// The value of the first entry of `hs` named `n`; the empty sequence when
/// there is none.
pub open spec fn first_value(hs: Seq<(Seq<char>, Seq<char>)>, n: Seq<char>) -> Seq<char>
    decreases hs.len(),
{
    if hs.len() == 0 {
        Seq::empty()
    } else if name_eq(hs[0].0, n) {
        hs[0].1
    } else {
        first_value(hs.drop_first(), n)
    }
}

/// `hs` with every entry named `n` (up to case) removed; the order of the
/// remaining entries is kept.
pub open spec fn sans_name(hs: Seq<(Seq<char>, Seq<char>)>, n: Seq<char>) -> Seq<
    (Seq<char>, Seq<char>),
>
    decreases hs.len(),
{
    if hs.len() == 0 {
        Seq::empty()
    } else if name_eq(hs[0].0, n) {
        sans_name(hs.drop_first(), n)
    } else {
        seq![hs[0]] + sans_name(hs.drop_first(), n)
    }
}

/// Removal on a single entry keeps or drops it by its name.
pub proof fn lemma_sans_name_single(e: (Seq<char>, Seq<char>), n: Seq<char>)
    ensures
        sans_name(seq![e], n) == if name_eq(e.0, n) {
            Seq::<(Seq<char>, Seq<char>)>::empty()
        } else {
            seq![e]
        },
{
    reveal_with_fuel(sans_name, 3);
    assert(seq![e].drop_first() =~= Seq::<(Seq<char>, Seq<char>)>::empty());
    if !name_eq(e.0, n) {
        assert(seq![e] + Seq::<(Seq<char>, Seq<char>)>::empty() =~= seq![e]);
    }
}

/// Removal distributes over concatenation.
pub proof fn lemma_sans_name_concat(
    a: Seq<(Seq<char>, Seq<char>)>,
    b: Seq<(Seq<char>, Seq<char>)>,
    n: Seq<char>,
)
    ensures
        sans_name(a + b, n) == sans_name(a, n) + sans_name(b, n),
    decreases a.len(),
{
    if a.len() == 0 {
        assert(a + b =~= b);
        assert(sans_name(a, n) + sans_name(b, n) =~= sans_name(b, n));
    } else {
        assert((a + b).drop_first() =~= a.drop_first() + b);
        lemma_sans_name_concat(a.drop_first(), b, n);
        if !name_eq(a[0].0, n) {
            assert(seq![a[0]] + (sans_name(a.drop_first(), n) + sans_name(b, n)) =~= (seq![a[0]]
                + sans_name(a.drop_first(), n)) + sans_name(b, n));
        }
    }
}

/// Presence of a name splits into the head entry and the rest.
pub proof fn lemma_has_name_unfold(hs: Seq<(Seq<char>, Seq<char>)>, n: Seq<char>)
    requires
        hs.len() > 0,
    ensures
        has_name(hs, n) == (name_eq(hs[0].0, n) || has_name(hs.drop_first(), n)),
{
    if has_name(hs, n) && !name_eq(hs[0].0, n) {
        let i = choose|i: int| 0 <= i < hs.len() && name_eq(hs[i].0, n);
        assert(hs.drop_first()[i - 1] == hs[i]);
    }
    if has_name(hs.drop_first(), n) {
        let i = choose|i: int| 0 <= i < hs.drop_first().len() && name_eq(hs.drop_first()[i].0, n);
        assert(hs[i + 1] == hs.drop_first()[i]);
    }
}

/// After removal of `n`, a name is present exactly when it was present
/// before and is not a case-variant of `n`.
pub proof fn lemma_sans_name_has(
    hs: Seq<(Seq<char>, Seq<char>)>,
    n: Seq<char>,
    m: Seq<char>,
)
    ensures
        has_name(sans_name(hs, n), m) == (!name_eq(m, n) && has_name(hs, m)),
    decreases hs.len(),
{
    if hs.len() > 0 {
        lemma_sans_name_has(hs.drop_first(), n, m);
        lemma_has_name_unfold(hs, m);
        if !name_eq(hs[0].0, n) {
            let rest = sans_name(hs.drop_first(), n);
            assert(sans_name(hs, n) == seq![hs[0]] + rest);
            lemma_has_name_unfold(seq![hs[0]] + rest, m);
            assert((seq![hs[0]] + rest)[0] == hs[0]);
            assert((seq![hs[0]] + rest).drop_first() =~= rest);
        }
    }
}

/// Removing entries named `n` does not change the first value of any other
/// name.
pub proof fn lemma_sans_name_first_value(
    hs: Seq<(Seq<char>, Seq<char>)>,
    n: Seq<char>,
    m: Seq<char>,
)
    requires
        !name_eq(m, n),
    ensures
        first_value(sans_name(hs, n), m) == first_value(hs, m),
    decreases hs.len(),
{
    if hs.len() == 0 {
    } else {
        lemma_sans_name_first_value(hs.drop_first(), n, m);
        if name_eq(hs[0].0, n) {
            assert(!name_eq(hs[0].0, m));
        } else {
            let rest = sans_name(hs.drop_first(), n);
            assert((seq![hs[0]] + rest).drop_first() =~= rest);
        }
    }
}

/// Removing a name that no entry bears changes nothing.
pub proof fn lemma_sans_name_absent_identity(hs: Seq<(Seq<char>, Seq<char>)>, n: Seq<char>)
    requires
        !has_name(hs, n),
    ensures
        sans_name(hs, n) == hs,
    decreases hs.len(),
{
    if hs.len() == 0 {
        assert(sans_name(hs, n) =~= hs);
    } else {
        lemma_has_name_unfold(hs, n);
        lemma_sans_name_absent_identity(hs.drop_first(), n);
        assert(seq![hs[0]] + hs.drop_first() =~= hs);
    }
}

/// Appending an entry: how presence and first value change.
pub proof fn lemma_push_has_first(
    hs: Seq<(Seq<char>, Seq<char>)>,
    e: (Seq<char>, Seq<char>),
    n: Seq<char>,
)
    ensures
        has_name(hs.push(e), n) == (has_name(hs, n) || name_eq(e.0, n)),
        has_name(hs, n) ==> first_value(hs.push(e), n) == first_value(hs, n),
    decreases hs.len(),
{
    lemma_has_name_unfold(hs.push(e), n);
    if hs.len() == 0 {
        assert(hs.push(e)[0] == e);
        assert(hs.push(e).drop_first() =~= hs);
    } else {
        lemma_push_has_first(hs.drop_first(), e, n);
        assert(hs.push(e).drop_first() =~= hs.drop_first().push(e));
        lemma_has_name_unfold(hs, n);
        assert(hs.push(e)[0] == hs[0]);
    }
}

/// `hs` with the header `n` set to exactly the value `v`: any earlier
/// entry named `n` (up to case) is dropped, and one `n: v` line stands at
/// the end.
pub open spec fn set_header_spec(
    hs: Seq<(Seq<char>, Seq<char>)>,
    n: Seq<char>,
    v: Seq<char>,
) -> Seq<(Seq<char>, Seq<char>)> {
    sans_name(hs, n).push((n, v))
}

impl Clone for HeaderSet {
    fn clone(&self) -> (r: Self)
        ensures
            r@ == self@,
    {
        let n = self.entries.len();
        let mut entries: Vec<HeaderEntry> = Vec::new();
        for i in 0..n
            invariant
                n == self.entries@.len(),
                entries_view(entries@) == entries_view(self.entries@).subrange(0, i as int),
        {
            let ghost before = entries_view(entries@);
            entries.push(self.entries[i].clone());
            proof {
                assert(entries_view(entries@) =~= before.push((self.entries@[i as int].name@,
                    self.entries@[i as int].value@)));
                assert(entries_view(self.entries@).subrange(0, i as int + 1) =~= before.push(
                    entries_view(self.entries@)[i as int]));
            }
        }
        proof {
            assert(entries_view(self.entries@).subrange(0, n as int) =~= entries_view(
                self.entries@));
        }
        HeaderSet { entries }
    }
}

impl HeaderSet {
    /// An empty header set.
    pub fn new() -> (r: HeaderSet)
        ensures
            r@ == Seq::<(Seq<char>, Seq<char>)>::empty(),
    {
        let r = HeaderSet { entries: Vec::new() };
        proof {
            assert(r@ =~= Seq::<(Seq<char>, Seq<char>)>::empty());
        }
        r
    }

    /// The number of header lines.
    pub fn len(&self) -> (r: usize)
        ensures
            r == self@.len(),
    {
        self.entries.len()
    }

    /// The name of the `i`-th header line.
    pub fn name_at(&self, i: usize) -> (r: &String)
        requires
            i < self@.len(),
        ensures
            r@ == self@[i as int].0,
    {
        &self.entries[i].name
    }

    /// The value of the `i`-th header line.
    pub fn value_at(&self, i: usize) -> (r: &String)
        requires
            i < self@.len(),
        ensures
            r@ == self@[i as int].1,
    {
        &self.entries[i].value
    }

    /// Appends a header line at the end.
    pub fn push(&mut self, name: String, value: String)
        ensures
            final(self)@ == old(self)@.push((name@, value@)),
    {
        let ghost before = self@;
        self.entries.push(HeaderEntry { name, value });
        proof {
            assert(self@ =~= before.push((self.entries@.last().name@,
                self.entries@.last().value@)));
        }
    }

    /// Whether some header line is named `name`, up to case.
    pub fn contains_key(&self, name: &str) -> (r: bool)
        ensures
            r == has_name(self@, name@),
    {
        let n = self.entries.len();
        for i in 0..n
            invariant
                n == self@.len(),
                forall|j: int| 0 <= j < i ==> !name_eq(self@[j].0, name@),
        {
            if header_name_eq(self.entries[i].name.as_str(), name) {
                proof {
                    assert(name_eq(self@[i as int].0, name@));
                }
                return true;
            }
        }
        false
    }

    /// The value of the first header line named `name`, if any.
    pub fn get_first<'a>(&'a self, name: &str) -> (r: Option<&'a String>)
        ensures
            match r {
                Some(v) => has_name(self@, name@) && v@ == first_value(self@, name@),
                None => !has_name(self@, name@),
            },
    {
        let n = self.entries.len();
        let mut i: usize = 0;
        proof {
            assert(self@.subrange(0, n as int) =~= self@);
        }
        while i < n
            invariant
                i <= n,
                n == self@.len(),
                forall|j: int| 0 <= j < i ==> !name_eq(self@[j].0, name@),
                first_value(self@, name@) == first_value(
                    self@.subrange(i as int, n as int),
                    name@,
                ),
                has_name(self@, name@) == has_name(self@.subrange(i as int, n as int), name@),
            decreases n - i,
        {
            proof {
                assert(self@.subrange(i as int, n as int).drop_first() =~= self@.subrange(
                    i as int + 1,
                    n as int,
                ));
            }
            if header_name_eq(self.entries[i].name.as_str(), name) {
                proof {
                    assert(self@.subrange(i as int, n as int)[0] == self@[i as int]);
                }
                return Some(&self.entries[i].value);
            }
            proof {
                lemma_has_name_unfold(self@.subrange(i as int, n as int), name@);
            }
            i = i + 1;
        }
        None
    }

    /// Removes every header line named `name`, up to case, keeping the order
    /// of the rest.
    pub fn remove(&mut self, name: &str)
        ensures
            final(self)@ == sans_name(old(self)@, name@),
    {
        let n = self.entries.len();
        let mut kept: Vec<HeaderEntry> = Vec::new();
        let mut i: usize = 0;
        proof {
            assert(old(self)@.subrange(0, 0) =~= Seq::<(Seq<char>, Seq<char>)>::empty());
            assert(entries_view(kept@) =~= Seq::<(Seq<char>, Seq<char>)>::empty());
        }
        while i < n
            invariant
                i <= n,
                n == self@.len(),
                self@ == old(self)@,
                entries_view(kept@) == sans_name(old(self)@.subrange(0, i as int), name@),
            decreases n - i,
        {
            let ghost prefix = old(self)@.subrange(0, i as int);
            let ghost e = old(self)@[i as int];
            proof {
                assert(old(self)@.subrange(0, i as int + 1) =~= prefix + seq![e]);
                lemma_sans_name_concat(prefix, seq![e], name@);
                lemma_sans_name_single(e, name@);
            }
            if !header_name_eq(self.entries[i].name.as_str(), name) {
                let ghost kept_before = entries_view(kept@);
                let entry = self.entries[i].clone();
                kept.push(entry);
                proof {
                    assert(entries_view(kept@) =~= kept_before.push(e));
                    assert(sans_name(seq![e], name@) =~= seq![e]);
                    assert(kept_before.push(e) =~= kept_before + seq![e]);
                }
            } else {
                proof {
                    assert(sans_name(seq![e], name@) =~= Seq::<(Seq<char>, Seq<char>)>::empty());
                    assert(entries_view(kept@) + Seq::<(Seq<char>, Seq<char>)>::empty()
                        =~= entries_view(kept@));
                }
            }
            i = i + 1;
        }
        proof {
            assert(old(self)@.subrange(0, n as int) =~= old(self)@);
        }
        self.entries = kept;
    }

    /// Sets the header `name` to exactly `value`, replacing any earlier
    /// entry of that name.
    pub fn set_header(&mut self, name: &str, value: String)
        ensures
            final(self)@ == set_header_spec(old(self)@, name@, value@),
    {
        self.remove(name);
        self.push(String::from_str(name), value);
    }
}

} // verus!
