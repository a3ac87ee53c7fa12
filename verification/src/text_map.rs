//! A map from text to values that keeps its keys in lexicographic order.

use crate::order::{self, Placement};
use vstd::prelude::*;

verus! {

/// Ordered map keyed by text. Its view is a `Map` from the keys' characters to
/// the views of the values.
#[derive(Debug, PartialEq, Eq)]
pub struct TextMap<V> {
    entries: Vec<(String, V)>,
}

/// The keys of `entries`, in position order.
spec fn keys_of<V>(entries: Seq<(String, V)>) -> Seq<Seq<char>> {
    Seq::new(entries.len(), |i: int| entries[i].0@)
}

spec fn map_of<V: View>(entries: Seq<(String, V)>) -> Map<Seq<char>, V::V> {
    Map::new(
        |k: Seq<char>| keys_of(entries).contains(k),
        |k: Seq<char>| entries[keys_of(entries).index_of(k)].1@,
    )
}

impl<V: View> View for TextMap<V> {
    type V = Map<Seq<char>, V::V>;

    closed spec fn view(&self) -> Map<Seq<char>, V::V> {
        map_of(self.entries@)
    }
}

/// With sorted keys, a key names one position only.
proof fn lemma_lookup<V: View>(entries: Seq<(String, V)>, i: int)
    requires
        order::strictly_sorted(keys_of(entries)),
        0 <= i < entries.len(),
    ensures
        map_of(entries).contains_key(entries[i].0@),
        map_of(entries)[entries[i].0@] == entries[i].1@,
        keys_of(entries).index_of(entries[i].0@) == i,
{
    let ks = keys_of(entries);
    let k = entries[i].0@;
    assert(ks[i] == k);
    assert(ks.contains(k));
    let j = ks.index_of(k);
    assert(0 <= j < ks.len() && ks[j] == k);
    if i < j {
        order::lex_irreflexive(ks[i]);
    } else if j < i {
        order::lex_irreflexive(ks[j]);
    }
}

/// Sorted keys are distinct, so the map has as many entries as the list.
proof fn lemma_len<V: View>(entries: Seq<(String, V)>)
    requires
        order::strictly_sorted(keys_of(entries)),
    ensures
        map_of(entries).dom().finite(),
        map_of(entries).dom().len() == entries.len(),
{
    let ks = keys_of(entries);
    assert forall|i: int, j: int| 0 <= i < ks.len() && 0 <= j < ks.len() && i != j implies ks[i]
        != ks[j] by {
        order::lex_irreflexive(ks[i]);
    }
    ks.unique_seq_to_set();
    assert(map_of(entries).dom() =~= ks.to_set());
}

/// Values that can be copied without loss.
pub trait Copied: View + Sized {
    /// A copy that says the same.
    fn copied(&self) -> (r: Self)
        ensures
            r@ == self@,
    ;
}

impl Copied for bool {
    fn copied(&self) -> (r: Self) {
        *self
    }
}

impl<V: Copied> Clone for TextMap<V> {
    fn clone(&self) -> (r: Self)
        ensures
            r@ == self@,
    {
        proof {
            use_type_invariant(self);
        }
        let mut entries: Vec<(String, V)> = Vec::new();
        let mut i: usize = 0;
        while i < self.entries.len()
            invariant
                i <= self.entries@.len(),
                entries@.len() == i,
                forall|j: int|
                    0 <= j < i ==> (#[trigger] entries@[j]).0@ == self.entries@[j].0@
                        && entries@[j].1@ == self.entries@[j].1@,
            decreases self.entries.len() - i,
        {
            entries.push((self.entries[i].0.clone(), self.entries[i].1.copied()));
            i = i + 1;
        }
        proof {
            let a = entries@;
            let b = self.entries@;
            assert(keys_of(a) =~= keys_of(b));
            assert forall|k: Seq<char>| keys_of(a).contains(k) implies map_of(a)[k] == map_of(
                b,
            )[k] by {
                let j = keys_of(a).index_of(k);
                assert(a[j].1@ == b[j].1@);
            }
            assert(map_of(a) =~= map_of(b));
        }
        TextMap { entries }
    }
}

impl<V> TextMap<V> {
    #[verifier::type_invariant]
    spec fn sorted(self) -> bool {
        order::strictly_sorted(keys_of(self.entries@))
    }
}

impl<V: View> TextMap<V> {
    /// The empty map.
    pub fn new() -> (m: Self)
        ensures
            m@ == Map::<Seq<char>, V::V>::empty(),
    {
        let m = TextMap { entries: Vec::new() };
        assert(m@ =~= Map::<Seq<char>, V::V>::empty());
        m
    }

    /// Number of keys.
    pub fn len(&self) -> (n: usize)
        ensures
            n == self@.dom().len(),
            self@.dom().finite(),
    {
        proof {
            use_type_invariant(self);
            lemma_len(self.entries@);
        }
        self.entries.len()
    }

    /// Whether the map has no key.
    pub fn is_empty(&self) -> (b: bool)
        ensures
            b == (self@ == Map::<Seq<char>, V::V>::empty()),
    {
        proof {
            use_type_invariant(self);
            if self.entries@.len() > 0 {
                lemma_lookup(self.entries@, 0);
            } else {
                assert(self@ =~= Map::<Seq<char>, V::V>::empty());
            }
        }
        self.entries.len() == 0
    }

    /// Position of `key`, or the position where it belongs.
    fn find(&self, key: &str) -> (r: (bool, usize))
        ensures
            r.1 <= self.entries@.len(),
            r.0 == self@.contains_key(key@),
            r.0 ==> r.1 < self.entries@.len() && self.entries@[r.1 as int].0@ == key@,
            forall|j: int| 0 <= j < r.1 ==> order::lex_lt(#[trigger] self.entries@[j].0@, key@),
            !r.0 ==> forall|j: int|
                r.1 <= j < self.entries@.len() ==> order::lex_lt(key@, #[trigger] self.entries@[j].0@),
    {
        proof {
            use_type_invariant(self);
        }
        let ghost ks = keys_of(self.entries@);
        let mut i: usize = 0;
        while i < self.entries.len()
            invariant
                ks == keys_of(self.entries@),
                order::strictly_sorted(ks),
                i <= self.entries@.len(),
                forall|j: int| 0 <= j < i ==> order::lex_lt(#[trigger] self.entries@[j].0@, key@),
            decreases self.entries.len() - i,
        {
            match order::place(self.entries[i].0.as_str(), key) {
                Placement::Before => {
                    i = i + 1;
                },
                Placement::Same => {
                    proof {
                        lemma_lookup(self.entries@, i as int);
                    }
                    return (true, i);
                },
                Placement::After => {
                    proof {
                        assert forall|j: int| i <= j < self.entries@.len() implies order::lex_lt(
                            key@,
                            #[trigger] self.entries@[j].0@,
                        ) by {
                            assert(ks[j] == self.entries@[j].0@);
                            assert(ks[i as int] == self.entries@[i as int].0@);
                            if i < j {
                                order::lex_transitive(key@, ks[i as int], ks[j]);
                            }
                        }
                        if ks.contains(key@) {
                            let j = ks.index_of(key@);
                            assert(ks[j] == self.entries@[j].0@);
                            order::lex_irreflexive(key@);
                        }
                    }
                    return (false, i);
                },
            }
        }
        proof {
            if ks.contains(key@) {
                let j = ks.index_of(key@);
                assert(ks[j] == self.entries@[j].0@);
                order::lex_irreflexive(key@);
            }
        }
        (false, i)
    }

    /// The value under `key`.
    pub fn get(&self, key: &str) -> (r: Option<&V>)
        ensures
            r is Some == self@.contains_key(key@),
            r matches Some(v) ==> v@ == self@[key@],
    {
        proof {
            use_type_invariant(self);
        }
        let (found, i) = self.find(key);
        if found {
            proof {
                lemma_lookup(self.entries@, i as int);
            }
            Some(&self.entries[i].1)
        } else {
            None
        }
    }

    /// Whether `key` has a value.
    pub fn contains_key(&self, key: &str) -> (b: bool)
        ensures
            b == self@.contains_key(key@),
    {
        self.find(key).0
    }

    /// Put `value` under `key`, in place of what was there.
    pub fn insert(&mut self, key: String, value: V)
        ensures
            final(self)@ == old(self)@.insert(key@, value@),
    {
        proof {
            use_type_invariant(&*self);
        }
        let (found, i) = self.find(key.as_str());
        let ghost before = self.entries@;
        let ghost kv = key@;
        let ghost vv = value@;
        let mut entries: Vec<(String, V)> = Vec::new();
        std::mem::swap(&mut entries, &mut self.entries);
        if found {
            entries.set(i, (key, value));
            proof {
                assert(keys_of(entries@) =~= keys_of(before));
                assert forall|k: Seq<char>| keys_of(before).contains(k) implies map_of(
                    entries@,
                )[k] == map_of(before).insert(kv, vv)[k] by {
                    let j = keys_of(before).index_of(k);
                    lemma_lookup(entries@, j);
                    lemma_lookup(before, j);
                    lemma_lookup(before, i as int);
                }
                assert(keys_of(before)[i as int] == kv);
                assert(map_of(entries@) =~= map_of(before).insert(kv, vv));
            }
        } else {
            entries.insert(i, (key, value));
            proof {
                lemma_insert_sorted(before, entries@, i as int, kv);
                lemma_insert_map(before, entries@, i as int, kv);
            }
        }
        self.entries = entries;
    }

    /// Take out the value under `key`.
    pub fn remove(&mut self, key: &str) -> (r: Option<V>)
        ensures
            final(self)@ == old(self)@.remove(key@),
            r is Some == old(self)@.contains_key(key@),
            r matches Some(v) ==> v@ == old(self)@[key@],
    {
        proof {
            use_type_invariant(&*self);
        }
        let (found, i) = self.find(key);
        if !found {
            assert(self@ =~= self@.remove(key@));
            return None;
        }
        let ghost before = self.entries@;
        let mut entries: Vec<(String, V)> = Vec::new();
        std::mem::swap(&mut entries, &mut self.entries);
        let (_, v) = entries.remove(i);
        proof {
            lemma_lookup(before, i as int);
            lemma_remove(before, entries@, i as int);
        }
        self.entries = entries;
        Some(v)
    }

    /// The keys, in order.
    pub fn keys(&self) -> (ks: Vec<String>)
        ensures
            order::strictly_sorted(Seq::new(ks@.len(), |i: int| ks@[i]@)),
            forall|k: Seq<char>| self@.contains_key(k) <==> exists|i: int|
                0 <= i < ks@.len() && #[trigger] ks@[i]@ == k,
    {
        proof {
            use_type_invariant(self);
        }
        let mut ks: Vec<String> = Vec::new();
        let mut i: usize = 0;
        while i < self.entries.len()
            invariant
                i <= self.entries@.len(),
                ks@.len() == i,
                forall|j: int| 0 <= j < i ==> (#[trigger] ks@[j])@ == self.entries@[j].0@,
            decreases self.entries.len() - i,
        {
            ks.push(self.entries[i].0.clone());
            i = i + 1;
        }
        proof {
            let all = keys_of(self.entries@);
            assert(Seq::new(ks@.len(), |i: int| ks@[i]@) =~= all);
            assert forall|k: Seq<char>| self@.contains_key(k) implies exists|i: int|
                0 <= i < ks@.len() && #[trigger] ks@[i]@ == k by {
                let j = all.index_of(k);
                assert(all[j] == k);
                assert(ks@[j]@ == k);
            }
            assert forall|k: Seq<char>|
                (exists|i: int| 0 <= i < ks@.len() && #[trigger] ks@[i]@ == k) implies self@.contains_key(k) by {
                let i = choose|i: int| 0 <= i < ks@.len() && #[trigger] ks@[i]@ == k;
                assert(all[i] == k);
            }
        }
        ks
    }
}

/// Inserting a new key where it belongs keeps the keys sorted.
proof fn lemma_insert_sorted<V: View>(
    before: Seq<(String, V)>,
    after: Seq<(String, V)>,
    at: int,
    key: Seq<char>,
)
    requires
        order::strictly_sorted(keys_of(before)),
        0 <= at <= before.len(),
        after.len() == before.len() + 1,
        after == before.insert(at, after[at]),
        after[at].0@ == key,
        forall|j: int| 0 <= j < at ==> order::lex_lt(#[trigger] before[j].0@, key),
        forall|j: int| at <= j < before.len() ==> order::lex_lt(key, #[trigger] before[j].0@),
    ensures
        order::strictly_sorted(keys_of(after)),
{
    let ks = keys_of(after);
    let old_ks = keys_of(before);
    assert forall|i: int, j: int| 0 <= i < j < ks.len() implies order::lex_lt(
        #[trigger] ks[i],
        #[trigger] ks[j],
    ) by {
        if i < at && j < at {
            assert(ks[i] == old_ks[i] && ks[j] == old_ks[j]);
        } else if i < at && j == at {
            assert(ks[i] == before[i].0@);
        } else if i < at {
            assert(ks[i] == old_ks[i] && ks[j] == old_ks[j - 1]);
        } else if i == at {
            assert(ks[j] == before[j - 1].0@);
        } else {
            assert(ks[i] == old_ks[i - 1] && ks[j] == old_ks[j - 1]);
        }
    }
}

/// Inserting a new key adds exactly that key to the map.
proof fn lemma_insert_map<V: View>(
    before: Seq<(String, V)>,
    after: Seq<(String, V)>,
    at: int,
    key: Seq<char>,
)
    requires
        order::strictly_sorted(keys_of(before)),
        order::strictly_sorted(keys_of(after)),
        0 <= at <= before.len(),
        after.len() == before.len() + 1,
        after == before.insert(at, after[at]),
        after[at].0@ == key,
    ensures
        map_of(after) == map_of(before).insert(key, after[at].1@),
{
    let ks = keys_of(after);
    let old_ks = keys_of(before);
    let want = map_of(before).insert(key, after[at].1@);
    assert forall|k: Seq<char>| map_of(after).contains_key(k) <==> want.contains_key(k) by {
        if ks.contains(k) {
            let j = ks.index_of(k);
            if j < at {
                assert(old_ks[j] == k);
            } else if j > at {
                assert(old_ks[j - 1] == k);
            }
        }
        if old_ks.contains(k) {
            let j = old_ks.index_of(k);
            if j < at {
                assert(ks[j] == k);
            } else {
                assert(ks[j + 1] == k);
            }
        }
        assert(ks[at] == key);
    }
    assert forall|k: Seq<char>| map_of(after).contains_key(k) implies map_of(after)[k]
        == want[k] by {
        let j = ks.index_of(k);
        lemma_lookup(after, j);
        if j < at {
            lemma_lookup(before, j);
            order::lex_irreflexive(k);
            assert(ks[j] == k && ks[at] == key);
        } else if j > at {
            lemma_lookup(before, j - 1);
            order::lex_irreflexive(k);
            assert(ks[j] == k && ks[at] == key);
        }
    }
    assert(map_of(after) =~= want);
}

/// Taking one entry out keeps the rest sorted and removes exactly its key.
proof fn lemma_remove<V: View>(before: Seq<(String, V)>, after: Seq<(String, V)>, at: int)
    requires
        order::strictly_sorted(keys_of(before)),
        0 <= at < before.len(),
        after == before.remove(at),
    ensures
        order::strictly_sorted(keys_of(after)),
        map_of(after) == map_of(before).remove(before[at].0@),
{
    let ks = keys_of(after);
    let old_ks = keys_of(before);
    let key = before[at].0@;
    assert(old_ks[at] == key);
    assert forall|i: int, j: int| 0 <= i < j < ks.len() implies order::lex_lt(
        #[trigger] ks[i],
        #[trigger] ks[j],
    ) by {
        let i0 = if i < at { i } else { i + 1 };
        let j0 = if j < at { j } else { j + 1 };
        assert(ks[i] == old_ks[i0] && ks[j] == old_ks[j0]);
    }
    let want = map_of(before).remove(key);
    assert forall|k: Seq<char>| map_of(after).contains_key(k) <==> want.contains_key(k) by {
        if ks.contains(k) {
            let j = ks.index_of(k);
            let j0 = if j < at { j } else { j + 1 };
            assert(old_ks[j0] == k);
            order::lex_irreflexive(k);
        }
        if old_ks.contains(k) && k != key {
            let j = old_ks.index_of(k);
            let j0 = if j < at { j } else { j - 1 };
            assert(ks[j0] == k);
        }
    }
    assert forall|k: Seq<char>| map_of(after).contains_key(k) implies map_of(after)[k]
        == want[k] by {
        let j = ks.index_of(k);
        let j0 = if j < at { j } else { j + 1 };
        lemma_lookup(after, j);
        lemma_lookup(before, j0);
        assert(ks[j] == k && old_ks[j0] == k);
        assert(after[j] == before[j0]);
        assert(want.contains_key(k));
    }
    assert(map_of(after) =~= want);
}

} // verus!
