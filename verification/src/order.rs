//! Lexicographic order on text.
//!
//! Strings are ordered by their characters' code points, first difference
//! first; a proper prefix comes before its extensions. This is the order in
//! which every peer sorts node ids, so it has to be total.

use crate::text::chars_of;
use vstd::prelude::*;

verus! {

/// `a` comes strictly before `b`.
pub open spec fn lex_lt(a: Seq<char>, b: Seq<char>) -> bool
    decreases a.len(),
{
    if b.len() == 0 {
        false
    } else if a.len() == 0 {
        true
    } else if a[0] != b[0] {
        (a[0] as int) < (b[0] as int)
    } else {
        lex_lt(a.drop_first(), b.drop_first())
    }
}

/// No text comes before itself.
pub proof fn lex_irreflexive(a: Seq<char>)
    ensures
        !lex_lt(a, a),
    decreases a.len(),
{
    if a.len() > 0 {
        lex_irreflexive(a.drop_first());
    }
}

/// The order is transitive.
pub proof fn lex_transitive(a: Seq<char>, b: Seq<char>, c: Seq<char>)
    requires
        lex_lt(a, b),
        lex_lt(b, c),
    ensures
        lex_lt(a, c),
    decreases a.len(),
{
    if a.len() > 0 && a[0] == b[0] && b[0] == c[0] {
        lex_transitive(a.drop_first(), b.drop_first(), c.drop_first());
    }
}

/// Two texts are equal or one comes before the other.
pub proof fn lex_total(a: Seq<char>, b: Seq<char>)
    ensures
        a == b || lex_lt(a, b) || lex_lt(b, a),
    decreases a.len(),
{
    if a.len() > 0 && b.len() > 0 && a[0] == b[0] {
        lex_total(a.drop_first(), b.drop_first());
        if a.drop_first() == b.drop_first() {
            assert(a =~= seq![a[0]] + a.drop_first());
            assert(b =~= seq![b[0]] + b.drop_first());
        }
    } else if a.len() == 0 && b.len() == 0 {
        assert(a =~= b);
    }
}

/// The order is asymmetric.
pub proof fn lex_asymmetric(a: Seq<char>, b: Seq<char>)
    requires
        lex_lt(a, b),
    ensures
        !lex_lt(b, a),
        a != b,
{
    lex_irreflexive(a);
    if lex_lt(b, a) {
        lex_transitive(a, b, a);
    }
}

/// Every character list is strictly increasing: sorted, with no repeats.
pub open spec fn strictly_sorted(s: Seq<Seq<char>>) -> bool {
    forall|i: int, j: int| 0 <= i < j < s.len() ==> lex_lt(#[trigger] s[i], #[trigger] s[j])
}

/// The members of `s` in order, each of them once.
pub open spec fn listing(s: Set<Seq<char>>) -> Seq<Seq<char>> {
    choose|l: Seq<Seq<char>>| strictly_sorted(l) && l.to_set() == s
}

/// There is only one way to list a set in order.
pub proof fn sorted_unique(a: Seq<Seq<char>>, b: Seq<Seq<char>>)
    requires
        strictly_sorted(a),
        strictly_sorted(b),
        a.to_set() == b.to_set(),
    ensures
        a == b,
    decreases a.len(),
{
    if a.len() == 0 {
        if b.len() > 0 {
            assert(b.to_set().contains(b[0]));
            assert(a.contains(b[0]));
        }
        assert(a =~= b);
    } else {
        assert(a.to_set().contains(a[0]));
        assert(b.contains(a[0]));
        let x = a.last();
        let y = b.last();
        assert(a.to_set().contains(x));
        assert(b.to_set().contains(y));
        assert(b.contains(x) && a.contains(y));
        let i = b.index_of(x);
        let j = a.index_of(y);
        if i < b.len() - 1 && j < a.len() - 1 {
            assert(lex_lt(b[i], b[b.len() - 1]));
            assert(lex_lt(a[j], a[a.len() - 1]));
            lex_asymmetric(x, y);
        }
        let a0 = a.drop_last();
        let b0 = b.drop_last();
        assert(strictly_sorted(a0) && strictly_sorted(b0));
        assert forall|k: Seq<char>| a0.to_set().contains(k) <==> b0.to_set().contains(k) by {
            if a0.contains(k) {
                let n = a0.index_of(k);
                assert(a[n] == k);
                assert(lex_lt(a[n], a[a.len() - 1]));
                lex_irreflexive(k);
                assert(a.to_set().contains(k));
                assert(b.contains(k));
                let p = b.index_of(k);
                assert(b0[p] == k);
            }
            if b0.contains(k) {
                let n = b0.index_of(k);
                assert(b[n] == k);
                assert(lex_lt(b[n], b[b.len() - 1]));
                lex_irreflexive(k);
                assert(b.to_set().contains(k));
                assert(a.contains(k));
                let p = a.index_of(k);
                assert(a0[p] == k);
            }
        }
        assert(a0.to_set() =~= b0.to_set());
        sorted_unique(a0, b0);
        assert(a =~= a0.push(x));
        assert(b =~= b0.push(y));
    }
}

/// A sorted list is the listing of its members.
pub proof fn listing_is(l: Seq<Seq<char>>)
    requires
        strictly_sorted(l),
    ensures
        listing(l.to_set()) == l,
{
    let m = listing(l.to_set());
    assert(strictly_sorted(m) && m.to_set() == l.to_set());
    sorted_unique(m, l);
}

/// Where a text belongs in a sorted list: behind those that come before it.
spec fn place_in(l: Seq<Seq<char>>, x: Seq<char>) -> int
    decreases l.len(),
{
    if l.len() == 0 || !lex_lt(l[0], x) {
        0
    } else {
        1 + place_in(l.drop_first(), x)
    }
}

proof fn lemma_place(l: Seq<Seq<char>>, x: Seq<char>)
    requires
        strictly_sorted(l),
        !l.contains(x),
    ensures
        0 <= place_in(l, x) <= l.len(),
        forall|i: int| 0 <= i < place_in(l, x) ==> lex_lt(#[trigger] l[i], x),
        forall|i: int| place_in(l, x) <= i < l.len() ==> lex_lt(x, #[trigger] l[i]),
    decreases l.len(),
{
    if l.len() > 0 {
        lex_total(l[0], x);
        let rest = l.drop_first();
        if lex_lt(l[0], x) {
            assert(!rest.contains(x)) by {
                if rest.contains(x) {
                    let k = rest.index_of(x);
                    assert(l[k + 1] == x);
                }
            }
            lemma_place(rest, x);
            let n = place_in(l, x);
            assert forall|i: int| 0 <= i < n implies lex_lt(#[trigger] l[i], x) by {
                if i > 0 {
                    assert(rest[i - 1] == l[i]);
                }
            }
            assert forall|i: int| n <= i < l.len() implies lex_lt(x, #[trigger] l[i]) by {
                assert(rest[i - 1] == l[i]);
            }
        } else {
            assert(l.contains(l[0]));
            assert forall|i: int| 0 <= i < l.len() implies lex_lt(x, #[trigger] l[i]) by {
                if i > 0 {
                    lex_transitive(x, l[0], l[i]);
                }
            }
        }
    }
}

/// Every finite set can be listed in order.
proof fn lemma_can_be_listed(s: Set<Seq<char>>) -> (l: Seq<Seq<char>>)
    requires
        s.finite(),
    ensures
        strictly_sorted(l),
        l.to_set() == s,
    decreases s.len(),
{
    if s.len() == 0 {
        let l = Seq::<Seq<char>>::empty();
        assert(l.to_set() =~= s);
        l
    } else {
        let x = s.choose();
        let m = lemma_can_be_listed(s.remove(x));
        assert(!m.contains(x)) by {
            if m.contains(x) {
                assert(m.to_set().contains(x));
            }
        }
        lemma_place(m, x);
        let n = place_in(m, x);
        let l = m.insert(n, x);
        assert forall|i: int, j: int| 0 <= i < j < l.len() implies lex_lt(
            #[trigger] l[i],
            #[trigger] l[j],
        ) by {
            let a = if i < n { i } else { i - 1 };
            let b = if j < n { j } else { j - 1 };
            if i != n && j != n {
                assert(l[i] == m[a] && l[j] == m[b]);
            } else if i == n {
                assert(l[j] == m[b]);
            } else {
                assert(l[i] == m[a]);
            }
        }
        assert forall|k: Seq<char>| l.to_set().contains(k) <==> s.contains(k) by {
            if l.contains(k) {
                let i = l.index_of(k);
                if i < n {
                    assert(m[i] == k);
                    assert(m.to_set().contains(k));
                } else if i > n {
                    assert(m[i - 1] == k);
                    assert(m.to_set().contains(k));
                }
            }
            if s.contains(k) {
                if k == x {
                    assert(l[n] == k);
                } else {
                    assert(m.to_set().contains(k));
                    let i = m.index_of(k);
                    if i < n {
                        assert(l[i] == k);
                    } else {
                        assert(l[i + 1] == k);
                    }
                }
            }
        }
        assert(l.to_set() =~= s);
        l
    }
}

/// The listing of a finite set is in order, has every member, and nothing else.
pub proof fn listing_of_finite(s: Set<Seq<char>>)
    requires
        s.finite(),
    ensures
        strictly_sorted(listing(s)),
        listing(s).to_set() == s,
        listing(s).len() == s.len(),
{
    let l = lemma_can_be_listed(s);
    assert(strictly_sorted(l) && l.to_set() == s);
    let m = listing(s);
    assert forall|i: int, j: int| 0 <= i < j < m.len() implies m[i] != m[j] by {
        lex_irreflexive(m[i]);
        assert(lex_lt(m[i], m[j]));
    }
    assert(m.no_duplicates());
    m.unique_seq_to_set();
}

/// What two texts are to each other in the order.
#[derive(Debug, Clone, Copy, PartialEq, Eq, Structural)]
pub enum Placement {
    Before,
    Same,
    After,
}

/// Where `a` stands relative to `b`.
pub fn place(a: &str, b: &str) -> (r: Placement)
    ensures
        (r is Before) == lex_lt(a@, b@),
        (r is Same) == (a@ == b@),
        (r is After) == lex_lt(b@, a@),
{
    let x = chars_of(a);
    let y = chars_of(b);
    let mut i: usize = 0;
    assert(a@.skip(0) =~= a@);
    assert(b@.skip(0) =~= b@);
    while i < x.len() && i < y.len()
        invariant
            x@ == a@,
            y@ == b@,
            i <= x.len(),
            i <= y.len(),
            forall|j: int| 0 <= j < i ==> x@[j] == y@[j],
            lex_lt(a@, b@) == lex_lt(a@.skip(i as int), b@.skip(i as int)),
            lex_lt(b@, a@) == lex_lt(b@.skip(i as int), a@.skip(i as int)),
        decreases x.len() - i,
    {
        proof {
            let p = a@.skip(i as int);
            let q = b@.skip(i as int);
            assert(p[0] == x@[i as int] && q[0] == y@[i as int]);
            assert(p.drop_first() =~= a@.skip(i + 1));
            assert(q.drop_first() =~= b@.skip(i + 1));
        }
        if x[i] != y[i] {
            proof {
                assert(a@[i as int] != b@[i as int]);
                if lex_lt(a@, b@) {
                    lex_asymmetric(a@, b@);
                }
                if lex_lt(b@, a@) {
                    lex_asymmetric(b@, a@);
                }
                lex_total(a@, b@);
            }
            return if x[i] < y[i] { Placement::Before } else { Placement::After };
        }
        i = i + 1;
    }
    proof {
        if x.len() == y.len() {
            assert(a@ =~= b@);
            lex_irreflexive(a@);
        }
    }
    if x.len() < y.len() {
        Placement::Before
    } else if x.len() == y.len() {
        Placement::Same
    } else {
        Placement::After
    }
}

} // verus!
