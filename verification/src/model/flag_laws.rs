//! A set of flags is a set of letters.

use crate::model::flags;
use crate::model::flags::{FlagSet, FlagSetParseError};
use vstd::prelude::*;

verus! {

/// The bit of a letter: the small letters come first, in order, then the capitals.
pub open spec fn bit_of(c: char) -> int {
    if 'a' <= c <= 'z' {
        c as int - 'a' as int
    } else {
        c as int - 'A' as int + 26
    }
}

/// Whether a character is a flag letter.
pub open spec fn is_letter(c: char) -> bool {
    'a' <= c <= 'z' || 'A' <= c <= 'Z'
}

/// A letter is a flag when its bit is set; nothing else is a flag.
pub proof fn letters_are_bits(s: FlagSet, c: char, b: bool)
    requires
        call_ensures(FlagSet::contains_letter, (s, c), b),
    ensures
        is_letter(c) ==> (b <==> s.spec_bits() & (1u64 << (bit_of(c) as u64)) != 0),
        !is_letter(c) ==> !b,
{
}

/// A letter that is inserted is a flag from then on, and no other flag comes or goes. What
/// is no letter is refused, and changes nothing.
pub proof fn inserted_letter_is_a_flag(
    s: &mut FlagSet,
    c: char,
    other: char,
    r: Result<(), FlagSetParseError>,
)
    requires
        call_ensures(FlagSet::insert_letter, (s, c), r),
    ensures
        is_letter(c) ==> r is Ok && flags::holds(final(s).spec_bits(), c),
        other != c ==> flags::holds(final(s).spec_bits(), other) == flags::holds(
            old(s).spec_bits(),
            other,
        ),
        !is_letter(c) ==> r == Err::<(), FlagSetParseError>(FlagSetParseError::InvalidChar(c))
            && final(s).spec_bits() == old(s).spec_bits(),
{
    if is_letter(c) {
        flags::insert_and_remove(old(s).spec_bits(), c, other);
    }
}

/// A letter that is removed is no flag from then on, and no other flag comes or goes. What
/// is no letter is refused, and changes nothing.
pub proof fn removed_letter_is_no_flag(
    s: &mut FlagSet,
    c: char,
    other: char,
    r: Result<(), FlagSetParseError>,
)
    requires
        call_ensures(FlagSet::remove_letter, (s, c), r),
    ensures
        is_letter(c) ==> r is Ok && !flags::holds(final(s).spec_bits(), c),
        other != c ==> flags::holds(final(s).spec_bits(), other) == flags::holds(
            old(s).spec_bits(),
            other,
        ),
        !is_letter(c) ==> r == Err::<(), FlagSetParseError>(FlagSetParseError::InvalidChar(c))
            && final(s).spec_bits() == old(s).spec_bits(),
{
    if is_letter(c) {
        flags::insert_and_remove(old(s).spec_bits(), c, other);
    }
}

/// The set operations work letter by letter.
pub proof fn sets_combine_letter_by_letter(
    a: FlagSet,
    b: FlagSet,
    c: char,
    u: FlagSet,
    i: FlagSet,
    d: FlagSet,
)
    requires
        call_ensures(FlagSet::union, (a, b), u),
        call_ensures(FlagSet::intersection, (a, b), i),
        call_ensures(FlagSet::difference, (a, b), d),
    ensures
        ({
            let x = flags::holds(a.spec_bits(), c);
            let y = flags::holds(b.spec_bits(), c);
            &&& flags::holds(u.spec_bits(), c) == (x || y)
            &&& flags::holds(i.spec_bits(), c) == (x && y)
            &&& flags::holds(d.spec_bits(), c) == (x && !y)
        }),
{
    flags::set_operations(a.spec_bits(), b.spec_bits(), c);
}

/// A set holds another when it has each of its letters.
pub proof fn set_holds_its_subsets(a: FlagSet, b: FlagSet, r: bool, c: char)
    requires
        call_ensures(FlagSet::contains, (a, b), r),
    ensures
        r && flags::holds(b.spec_bits(), c) ==> flags::holds(a.spec_bits(), c),
        r ==> a.spec_bits() | b.spec_bits() == a.spec_bits(),
        !r ==> a.spec_bits() | b.spec_bits() != a.spec_bits(),
{
    let x = a.spec_bits();
    let y = b.spec_bits();
    assert((x & y == y) == (x | y == x)) by (bit_vector);
    flags::set_operations(x, y, c);
}

/// The empty set has no letter, and no other set is empty.
pub proof fn empty_set_has_no_letter(n: FlagSet, s: FlagSet, b: bool, c: char)
    requires
        call_ensures(FlagSet::none, (), n),
        call_ensures(FlagSet::is_empty, (s,), b),
    ensures
        !flags::holds(n.spec_bits(), c),
        b ==> !flags::holds(s.spec_bits(), c),
        !b ==> s.spec_bits() != n.spec_bits(),
{
    if let Some(m) = flags::letter_mask(c) {
        assert(0u64 & m == 0) by (bit_vector);
    }
}

proof fn lemma_letters(bits: u64, n: nat)
    requires
        n <= 52,
    ensures
        forall|k: int|
            0 <= k < flags::letters_below(bits, n).len() ==> {
                let c = #[trigger] flags::letters_below(bits, n)[k];
                is_letter(c) && bit_of(c) < n && flags::holds(bits, c)
            },
        forall|j: int, k: int|
            0 <= j < k < flags::letters_below(bits, n).len() ==> bit_of(
                #[trigger] flags::letters_below(bits, n)[j],
            ) < bit_of(#[trigger] flags::letters_below(bits, n)[k]),
        forall|c: char|
            is_letter(c) && bit_of(c) < n && flags::holds(bits, c)
                ==> #[trigger] flags::letters_below(bits, n).contains(c),
    decreases n,
{
    if n > 0 {
        let m = (n - 1) as nat;
        lemma_letters(bits, m);
        let l = flags::letters_below(bits, n);
        let p = flags::letters_below(bits, m);
        let x = flags::letter_at(m as int);
        assert(is_letter(x) && bit_of(x) == m);
        assert(flags::letter_index(x) == Some(m as u64));
        assert forall|c: char|
            is_letter(c) && bit_of(c) < n && flags::holds(
                bits,
                c,
            ) implies #[trigger] l.contains(c) by {
            if bit_of(c) < m {
                assert(p.contains(c));
                let k = choose|k: int| 0 <= k < p.len() && p[k] == c;
                assert(l[k] == c);
            } else {
                assert(c == x);
                assert(l.last() == x);
            }
        }
    }
}

/// The letters of a set are listed once each, from `a` to `z` and then from `A` to `Z`.
pub proof fn letters_are_listed_in_order(s: FlagSet, v: Vec<char>, j: int, k: int)
    requires
        call_ensures(FlagSet::letters, (s,), v),
        0 <= j < k < v@.len(),
    ensures
        is_letter(v@[j]) && is_letter(v@[k]) && bit_of(v@[j]) < bit_of(v@[k]),
{
    lemma_letters(s.spec_bits(), 52);
}

/// The letters that are listed are the flags of the set: none is left out, and none is made
/// up.
pub proof fn listed_letters_are_the_flags(s: FlagSet, v: Vec<char>, c: char)
    requires
        call_ensures(FlagSet::letters, (s,), v),
    ensures
        v@.contains(c) <==> flags::holds(s.spec_bits(), c),
{
    lemma_letters(s.spec_bits(), 52);
    if v@.contains(c) {
        let k = choose|k: int| 0 <= k < v@.len() && v@[k] == c;
        assert(v@[k] == c);
    }
}

/// A set is written as a plus sign and its letters, or as nothing.
pub proof fn set_is_written_as_its_letters(s: &FlagSet, v: Vec<char>, t: String)
    requires
        call_ensures(FlagSet::letters, (*s,), v),
        call_ensures(FlagSet::to_string, (s,), t),
    ensures
        s.spec_bits() == 0 ==> t@.len() == 0,
        s.spec_bits() != 0 ==> t@ == seq!['+'] + v@,
{
}

/// A list of letters is read letter by letter: each is a flag of the result, and nothing
/// else is. The first character that is no letter is refused.
pub proof fn listed_letters_are_read(s: &str, r: Result<FlagSet, FlagSetParseError>, c: char)
    requires
        call_ensures(FlagSet::from_letters, (s,), r),
    ensures
        r is Ok <==> (forall|i: int| 0 <= i < s@.len() ==> is_letter(#[trigger] s@[i])),
        r matches Ok(f) ==> (flags::holds(f.spec_bits(), c) <==> s@.contains(c)),
        r matches Err(FlagSetParseError::InvalidChar(x)) ==> exists|i: int|
            0 <= i < s@.len() && #[trigger] s@[i] == x && !is_letter(x) && (forall|j: int|
                0 <= j < i ==> is_letter(#[trigger] s@[j])),
{
    lemma_read(s@, c);
}

proof fn lemma_read(s: Seq<char>, c: char)
    ensures
        flags::letters_run(s).1 is None <==> (forall|i: int|
            0 <= i < s.len() ==> is_letter(#[trigger] s[i])),
        flags::letters_run(s).1 is None ==> (flags::holds(flags::letters_run(s).0, c)
            <==> s.contains(c)),
        flags::letters_run(s).1 matches Some(x) ==> exists|i: int|
            0 <= i < s.len() && #[trigger] s[i] == x && !is_letter(x) && (forall|j: int|
                0 <= j < i ==> is_letter(#[trigger] s[j])),
    decreases s.len(),
{
    if s.len() == 0 {
        if let Some(m) = flags::letter_mask(c) {
            assert(0u64 & m == 0) by (bit_vector);
        }
    } else {
        let d = s.drop_last();
        lemma_read(d, c);
        let run = flags::letters_run(d);
        assert(forall|i: int| 0 <= i < d.len() ==> #[trigger] d[i] == s[i]);
        if run.1 is None {
            let x = s.last();
            if is_letter(x) {
                flags::insert_and_remove(run.0, x, c);
                if s.contains(c) && c != x {
                    let i = choose|i: int| 0 <= i < s.len() && s[i] == c;
                    assert(d[i] == c);
                }
                if d.contains(c) {
                    let i = choose|i: int| 0 <= i < d.len() && d[i] == c;
                    assert(s[i] == c);
                }
                assert(s[s.len() - 1] == x);
                assert forall|i: int| 0 <= i < s.len() implies is_letter(#[trigger] s[i]) by {
                    if i < d.len() {
                        assert(is_letter(d[i]));
                    }
                }
            } else {
                assert(s[s.len() - 1] == x);
                assert forall|j: int| 0 <= j < s.len() - 1 implies is_letter(#[trigger] s[j]) by {
                    assert(is_letter(d[j]));
                }
            }
        } else {
            let x = run.1->0;
            let i = choose|i: int|
                0 <= i < d.len() && #[trigger] d[i] == x && !is_letter(x) && (forall|j: int|
                    0 <= j < i ==> is_letter(#[trigger] d[j]));
            assert(s[i] == x);
            assert forall|j: int| 0 <= j < i implies is_letter(#[trigger] s[j]) by {
                assert(is_letter(d[j]));
            }
        }
    }
}

/// A diff is applied to the set as it was, and a set is read as a diff of none. A diff that
/// is refused has done what stands before the character it is refused for.
pub proof fn diff_is_applied_to_the_set(
    s: &mut FlagSet,
    diff: &str,
    r: Result<(), FlagSetParseError>,
    p: Result<FlagSet, FlagSetParseError>,
)
    requires
        call_ensures(FlagSet::apply_diff, (s, diff), r),
        call_ensures(FlagSet::parse, (diff,), p),
    ensures
        ({
            let t = flags::diff_applied(old(s).spec_bits(), diff@);
            &&& final(s).spec_bits() == t.bits
            &&& r is Ok <==> t.bad is None
            &&& r matches Err(FlagSetParseError::InvalidChar(c)) ==> t.bad == Some(c)
        }),
        old(s).spec_bits() == 0 ==> (p is Ok <==> r is Ok) && (p matches Ok(f)
            ==> f.spec_bits() == final(s).spec_bits()),
{
}

} // verus!
