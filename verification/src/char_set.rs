//! A set of characters kept in code-point order.

use vstd::prelude::*;

verus! {

/// Ordered set of characters. Its view is a `Set<char>`.
#[derive(Debug, PartialEq, Eq)]
pub struct CharSet {
    chars: Vec<char>,
}

impl View for CharSet {
    type V = Set<char>;

    closed spec fn view(&self) -> Set<char> {
        self.chars@.to_set()
    }
}

impl Clone for CharSet {
    fn clone(&self) -> (r: Self)
        ensures
            r@ == self@,
    {
        proof {
            use_type_invariant(self);
        }
        let chars = self.chars.clone();
        assert(chars@ =~= self.chars@);
        CharSet { chars }
    }
}

impl CharSet {
    #[verifier::type_invariant]
    spec fn sorted(self) -> bool {
        forall|i: int, j: int|
            0 <= i < j < self.chars@.len() ==> (#[trigger] self.chars@[i] as int) < (
            #[trigger] self.chars@[j] as int)
    }

    /// The empty set.
    pub fn new() -> (s: Self)
        ensures
            s@ == Set::<char>::empty(),
    {
        let s = CharSet { chars: Vec::new() };
        assert(s@ =~= Set::<char>::empty());
        s
    }

    /// Whether the set has no member.
    pub fn is_empty(&self) -> (b: bool)
        ensures
            b == (self@ == Set::<char>::empty()),
    {
        proof {
            if self.chars@.len() > 0 {
                assert(self@.contains(self.chars@[0]));
            } else {
                assert(self@ =~= Set::<char>::empty());
            }
        }
        self.chars.len() == 0
    }

    /// Position of the first member that is not before `c`.
    fn find(&self, c: char) -> (i: usize)
        ensures
            i <= self.chars@.len(),
            forall|j: int| 0 <= j < i ==> (#[trigger] self.chars@[j] as int) < c as int,
            i < self.chars@.len() ==> c as int <= self.chars@[i as int] as int,
            self@.contains(c) == (i < self.chars@.len() && self.chars@[i as int] == c),
    {
        proof {
            use_type_invariant(self);
        }
        let mut i: usize = 0;
        while i < self.chars.len() && self.chars[i] < c
            invariant
                i <= self.chars@.len(),
                forall|j: int| 0 <= j < i ==> (#[trigger] self.chars@[j] as int) < c as int,
            decreases self.chars.len() - i,
        {
            i = i + 1;
        }
        proof {
            if self@.contains(c) {
                let k = choose|k: int| 0 <= k < self.chars@.len() && self.chars@[k] == c;
                assert(self.chars@[k] == c);
                assert(i <= k);
            }
        }
        i
    }

    /// Whether `c` is a member.
    pub fn contains(&self, c: &char) -> (b: bool)
        ensures
            b == self@.contains(*c),
    {
        let i = self.find(*c);
        i < self.chars.len() && self.chars[i] == *c
    }

    /// Add `c`.
    pub fn insert(&mut self, c: char)
        ensures
            final(self)@ == old(self)@.insert(c),
    {
        proof {
            use_type_invariant(&*self);
        }
        let i = self.find(c);
        if i < self.chars.len() && self.chars[i] == c {
            assert(self@.insert(c) =~= self@);
            return;
        }
        let ghost before = self.chars@;
        let mut chars: Vec<char> = Vec::new();
        std::mem::swap(&mut chars, &mut self.chars);
        chars.insert(i, c);
        proof {
            assert forall|x: int, y: int| 0 <= x < y < chars@.len() implies (
            #[trigger] chars@[x] as int) < (#[trigger] chars@[y] as int) by {
                let x0 = if x < i { x } else { x - 1 };
                let y0 = if y < i { y } else { y - 1 };
                if x != i {
                    assert(chars@[x] == before[x0]);
                }
                if y != i {
                    assert(chars@[y] == before[y0]);
                }
                if x == i && y0 > i {
                    assert((before[i as int] as int) < (before[y0] as int));
                }
            }
            assert forall|k: char| #[trigger] chars@.to_set().contains(k) <==> before.to_set().insert(
                c,
            ).contains(k) by {
                if before.contains(k) {
                    let j = choose|j: int| 0 <= j < before.len() && before[j] == k;
                    assert(chars@[if j < i { j } else { j + 1 }] == k);
                }
                assert(chars@[i as int] == c);
                if chars@.contains(k) && k != c {
                    let j = choose|j: int| 0 <= j < chars@.len() && chars@[j] == k;
                    assert(before[if j < i { j } else { j - 1 }] == k);
                }
            }
            assert(chars@.to_set() =~= before.to_set().insert(c));
        }
        self.chars = chars;
    }

    /// Take `c` out.
    pub fn remove(&mut self, c: &char)
        ensures
            final(self)@ == old(self)@.remove(*c),
    {
        proof {
            use_type_invariant(&*self);
        }
        let i = self.find(*c);
        if i >= self.chars.len() || self.chars[i] != *c {
            assert(self@.remove(*c) =~= self@);
            return;
        }
        let ghost before = self.chars@;
        let mut chars: Vec<char> = Vec::new();
        std::mem::swap(&mut chars, &mut self.chars);
        let _ = chars.remove(i);
        proof {
            assert forall|x: int, y: int| 0 <= x < y < chars@.len() implies (
            #[trigger] chars@[x] as int) < (#[trigger] chars@[y] as int) by {
                let x0 = if x < i { x } else { x + 1 };
                let y0 = if y < i { y } else { y + 1 };
                assert(chars@[x] == before[x0] && chars@[y] == before[y0]);
            }
            assert forall|k: char| #[trigger] chars@.to_set().contains(k) <==> before.to_set().remove(
                *c,
            ).contains(k) by {
                if before.contains(k) && k != *c {
                    let j = choose|j: int| 0 <= j < before.len() && before[j] == k;
                    assert(chars@[if j < i { j } else { j - 1 }] == k);
                }
                if chars@.contains(k) {
                    let j = choose|j: int| 0 <= j < chars@.len() && chars@[j] == k;
                    let j0 = if j < i { j } else { j + 1 };
                    assert(before[j0] == k);
                    assert(before[i as int] == *c);
                }
            }
            assert(chars@.to_set() =~= before.to_set().remove(*c));
        }
        self.chars = chars;
    }
}

} // verus!
