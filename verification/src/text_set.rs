//! A set of texts kept in lexicographic order.

use crate::order;
use crate::text;
use crate::text_map::TextMap;
use vstd::prelude::*;

verus! {

/// Ordered set of texts. Its view is the set of the texts' characters.
#[derive(Debug, PartialEq, Eq)]
pub struct TextSet {
    map: TextMap<bool>,
}

impl View for TextSet {
    type V = Set<Seq<char>>;

    closed spec fn view(&self) -> Set<Seq<char>> {
        self.map@.dom()
    }
}

impl Clone for TextSet {
    fn clone(&self) -> (r: Self)
        ensures
            r@ == self@,
    {
        TextSet { map: self.map.clone() }
    }
}

impl TextSet {
    /// The empty set.
    pub fn new() -> (s: Self)
        ensures
            s@ == Set::<Seq<char>>::empty(),
    {
        let s = TextSet { map: TextMap::new() };
        assert(s@ =~= Set::<Seq<char>>::empty());
        s
    }

    /// Number of members.
    pub fn len(&self) -> (n: usize)
        ensures
            n == self@.len(),
            self@.finite(),
    {
        self.map.len()
    }

    /// Whether the set has no member.
    pub fn is_empty(&self) -> (b: bool)
        ensures
            b == (self@ == Set::<Seq<char>>::empty()),
    {
        let b = self.map.is_empty();
        proof {
            if self@ == Set::<Seq<char>>::empty() {
                assert(self.map@ =~= Map::empty());
            }
        }
        b
    }

    /// Whether `t` is a member.
    pub fn contains(&self, t: &str) -> (b: bool)
        ensures
            b == self@.contains(t@),
    {
        self.map.contains_key(t)
    }

    /// Add `t`.
    pub fn insert(&mut self, t: String)
        ensures
            final(self)@ == old(self)@.insert(t@),
    {
        let ghost before = self@;
        let ghost k = t@;
        self.map.insert(t, true);
        assert(self@ =~= before.insert(k));
    }

    /// Take `t` out.
    pub fn remove(&mut self, t: &str)
        ensures
            final(self)@ == old(self)@.remove(t@),
    {
        let ghost before = self@;
        let _ = self.map.remove(t);
        assert(self@ =~= before.remove(t@));
    }

    /// The members, in order.
    pub fn to_vec(&self) -> (v: Vec<String>)
        ensures
            text::views(v@) == order::listing(self@),
            order::strictly_sorted(text::views(v@)),
            text::views(v@).to_set() == self@,
            self@.finite(),
    {
        let v = self.map.keys();
        proof {
            let vs = text::views(v@);
            assert forall|k: Seq<char>| vs.to_set().contains(k) <==> self@.contains(k) by {
                if self@.contains(k) {
                    let i = choose|i: int| 0 <= i < v@.len() && #[trigger] v@[i]@ == k;
                    assert(vs[i] == k);
                }
                if vs.contains(k) {
                    let i = vs.index_of(k);
                    assert(v@[i]@ == k);
                }
            }
            assert(vs.to_set() =~= self@);
            order::listing_is(vs);
            vstd::seq_lib::seq_to_set_is_finite(vs);
        }
        v
    }

    /// The set of the texts in `l`.
    pub fn from_slice(l: &[String]) -> (s: Self)
        ensures
            s@ == text::views(l@).to_set(),
    {
        let mut s = TextSet::new();
        let ghost vs = text::views(l@);
        let mut i: usize = 0;
        assert(vs.take(0).to_set() =~= Set::empty());
        while i < l.len()
            invariant
                i <= l.len(),
                vs == text::views(l@),
                s@ == vs.take(i as int).to_set(),
            decreases l.len() - i,
        {
            s.insert(l[i].clone());
            proof {
                lemma_take_insert(vs, i as int);
            }
            i = i + 1;
        }
        assert(vs.take(vs.len() as int) =~= vs);
        s
    }

    /// The set of the texts in `l`.
    pub fn from_strs(l: &Vec<&str>) -> (s: Self)
        ensures
            s@ == text::str_views(l@).to_set(),
    {
        let mut s = TextSet::new();
        let ghost vs = text::str_views(l@);
        let mut i: usize = 0;
        assert(vs.take(0).to_set() =~= Set::empty());
        while i < l.len()
            invariant
                i <= l.len(),
                vs == text::str_views(l@),
                s@ == vs.take(i as int).to_set(),
            decreases l.len() - i,
        {
            s.insert(text::owned(l[i]));
            proof {
                lemma_take_insert(vs, i as int);
            }
            i = i + 1;
        }
        assert(vs.take(vs.len() as int) =~= vs);
        s
    }
}

/// One more element in a prefix is one more member of its set.
pub proof fn lemma_take_insert(vs: Seq<Seq<char>>, i: int)
    requires
        0 <= i < vs.len(),
    ensures
        vs.take(i + 1).to_set() == vs.take(i).to_set().insert(vs[i]),
{
    let a = vs.take(i + 1);
    let b = vs.take(i);
    assert forall|k: Seq<char>| a.to_set().contains(k) <==> b.to_set().insert(vs[i]).contains(k) by {
        if a.contains(k) {
            let j = a.index_of(k);
            if j < i {
                assert(b[j] == k);
            }
        }
        if b.contains(k) {
            let j = b.index_of(k);
            assert(a[j] == k);
        }
        assert(a[i] == vs[i]);
    }
    assert(a.to_set() =~= b.to_set().insert(vs[i]));
}

} // verus!
