//! Flag bitsets.
//!
//! A [`FlagSet`] is a `u64` bitmap where each lowercase letter `a..=z` maps to
//! one of the bits 0..=25 and each uppercase letter `A..=Z` to one of the bits
//! 26..=51. The remaining bits are reserved.
//!
//! The text form is a diff such as `+ox-d`. A set is always written in one
//! canonical form, so equality of the text is equality of the set.

use crate::text;
use vstd::prelude::*;
use vstd::string::*;

verus! {

/// Letter-encoded flag bitmap.
#[derive(Debug, Clone, Copy, PartialEq, Eq, Hash, Structural)]
pub struct FlagSet {
    bits: u64,
}

/// Number of letters that have a bit.
pub const LETTERS: u64 = 52;

/// The bit position of a letter; `None` for any other character.
pub open spec fn letter_index(c: char) -> Option<u64> {
    if 'a' <= c <= 'z' {
        Some((c as u64 - 97) as u64)
    } else if 'A' <= c <= 'Z' {
        Some((c as u64 - 65 + 26) as u64)
    } else {
        None
    }
}

/// The letter at a bit position below [`LETTERS`].
pub open spec fn letter_at(i: int) -> char {
    if i < 26 {
        (97 + i) as char
    } else {
        (65 + i - 26) as char
    }
}

/// The bitmap with only the bit of `c` set.
pub open spec fn letter_mask(c: char) -> Option<u64> {
    match letter_index(c) {
        Some(i) => Some(1u64 << i),
        None => None,
    }
}

/// Whether the letter `c` is in the bitmap.
pub open spec fn holds(bits: u64, c: char) -> bool {
    match letter_mask(c) {
        Some(m) => bits & m != 0,
        None => false,
    }
}

/// The letters at the first `n` bit positions that are in the bitmap, in order.
pub open spec fn letters_below(bits: u64, n: nat) -> Seq<char>
    decreases n,
{
    if n == 0 {
        Seq::empty()
    } else if bits & (1u64 << ((n - 1) as u64)) != 0 {
        letters_below(bits, (n - 1) as nat).push(letter_at(n - 1))
    } else {
        letters_below(bits, (n - 1) as nat)
    }
}

/// The letters of a bitmap in canonical order: a to z, then A to Z.
pub open spec fn letters_of(bits: u64) -> Seq<char> {
    letters_below(bits, LETTERS as nat)
}

/// The canonical text of a bitmap: empty for the empty set, otherwise `+` and
/// the letters.
pub open spec fn text_of(bits: u64) -> Seq<char> {
    if bits == 0 {
        Seq::empty()
    } else {
        seq!['+'] + letters_of(bits)
    }
}

/// Parsing errors.
#[derive(Debug, Clone, Copy, PartialEq, Eq, Structural)]
pub enum FlagSetParseError {
    /// A character that is no flag letter.
    InvalidChar(char),
}

/// The message for a character that is no flag letter.
pub open spec fn invalid_char_text(c: char) -> Seq<char> {
    "invalid flag character "@ + text::char_debug(c)
}

impl FlagSetParseError {
    /// The message of the error.
    pub fn to_string(&self) -> (s: String)
        ensures
            s@ == match *self {
                FlagSetParseError::InvalidChar(c) => invalid_char_text(c),
            },
    {
        match self {
            FlagSetParseError::InvalidChar(c) => text::concat(
                "invalid flag character ",
                text::debug_char(*c).as_str(),
            ),
        }
    }
}

/// How far a diff has been read: the bitmap so far, the direction in force, and
/// the first character that was no letter, at which reading stopped.
pub struct DiffState {
    pub bits: u64,
    pub adding: bool,
    pub bad: Option<char>,
}

/// One character of a diff. `+` and `-` set the direction, blanks are passed
/// over, a letter is added or removed.
pub open spec fn diff_step(s: DiffState, c: char) -> DiffState {
    if s.bad is Some {
        s
    } else if c == '+' {
        DiffState { adding: true, ..s }
    } else if c == '-' {
        DiffState { adding: false, ..s }
    } else if c == ' ' || c == '\t' {
        s
    } else {
        match letter_mask(c) {
            Some(m) => DiffState {
                bits: if s.adding {
                    s.bits | m
                } else {
                    s.bits & !m
                },
                ..s
            },
            None => DiffState { bad: Some(c), ..s },
        }
    }
}

/// Read the diff `d` from left to right.
pub open spec fn diff_run(s: DiffState, d: Seq<char>) -> DiffState
    decreases d.len(),
{
    if d.len() == 0 {
        s
    } else {
        diff_step(diff_run(s, d.drop_last()), d.last())
    }
}

/// Apply the diff `d` to a bitmap.
pub open spec fn diff_applied(bits: u64, d: Seq<char>) -> DiffState {
    diff_run(DiffState { bits, adding: true, bad: None }, d)
}

/// The bitmap of a list of letters, and the first character that is none.
pub open spec fn letters_run(s: Seq<char>) -> (u64, Option<char>)
    decreases s.len(),
{
    if s.len() == 0 {
        (0, None)
    } else {
        let (bits, bad) = letters_run(s.drop_last());
        if bad is Some {
            (bits, bad)
        } else {
            match letter_mask(s.last()) {
                Some(m) => (bits | m, None),
                None => (bits, Some(s.last())),
            }
        }
    }
}

proof fn lemma_diff_stops(s: DiffState, d: Seq<char>, n: int)
    requires
        0 <= n <= d.len(),
        diff_run(s, d.take(n)).bad is Some,
    ensures
        diff_run(s, d) == diff_run(s, d.take(n)),
    decreases d.len() - n,
{
    if n < d.len() {
        assert(d.take(n + 1).drop_last() =~= d.take(n));
        lemma_diff_stops(s, d, n + 1);
    } else {
        assert(d.take(n) =~= d);
    }
}

proof fn lemma_letters_stop(s: Seq<char>, n: int)
    requires
        0 <= n <= s.len(),
        letters_run(s.take(n)).1 is Some,
    ensures
        letters_run(s).1 == letters_run(s.take(n)).1,
    decreases s.len() - n,
{
    if n < s.len() {
        assert(s.take(n + 1).drop_last() =~= s.take(n));
        lemma_letters_stop(s, n + 1);
    } else {
        assert(s.take(n) =~= s);
    }
}

/// Map a flag letter to its bit. Other characters have none.
fn letter_bit(c: char) -> (r: Option<u64>)
    ensures
        r == letter_mask(c),
{
    if 'a' <= c && c <= 'z' {
        Some(1u64 << (c as u64 - 97))
    } else if 'A' <= c && c <= 'Z' {
        Some(1u64 << (c as u64 - 65 + 26))
    } else {
        None
    }
}

impl FlagSet {
    /// Empty flag set.
    #[must_use]
    pub fn none() -> (s: Self)
        ensures
            s.spec_bits() == 0,
    {
        FlagSet { bits: 0 }
    }

    /// The bitmap.
    pub closed spec fn spec_bits(self) -> u64 {
        self.bits
    }

    /// The set with a given bitmap.
    pub closed spec fn of_bits(bits: u64) -> Self {
        FlagSet { bits }
    }

    /// A [`FlagSet`] from raw bits.
    #[must_use]
    pub fn from_bits(bits: u64) -> (s: Self)
        ensures
            s.spec_bits() == bits,
            s == FlagSet::of_bits(bits),
    {
        FlagSet { bits }
    }

    /// Underlying bit pattern.
    #[must_use]
    pub fn bits(self) -> (b: u64)
        ensures
            b == self.spec_bits(),
    {
        self.bits
    }

    /// Whether the set is empty.
    #[must_use]
    pub fn is_empty(self) -> (b: bool)
        ensures
            b == (self.spec_bits() == 0),
    {
        self.bits == 0
    }

    /// The set of every letter in `letters`. The first character that is not an
    /// ASCII letter is rejected.
    pub fn from_letters(letters: &str) -> (r: Result<Self, FlagSetParseError>)
        ensures
            match r {
                Ok(s) => letters_run(letters@) == (s.spec_bits(), None::<char>),
                Err(FlagSetParseError::InvalidChar(c)) => letters_run(letters@).1 == Some(c),
            },
    {
        let cs = text::chars_of(letters);
        let mut s = FlagSet::none();
        let mut i: usize = 0;
        assert(letters@.take(0) =~= Seq::empty());
        while i < cs.len()
            invariant
                cs@ == letters@,
                i <= cs.len(),
                letters_run(letters@.take(i as int)) == (s.bits, None::<char>),
            decreases cs.len() - i,
        {
            proof {
                assert(letters@.take(i + 1).drop_last() =~= letters@.take(i as int));
                assert(letters@.take(i + 1).last() == cs@[i as int]);
            }
            match s.insert_letter(cs[i]) {
                Ok(()) => {},
                Err(e) => {
                    proof {
                        lemma_letters_stop(letters@, i + 1);
                    }
                    return Err(e);
                },
            }
            i = i + 1;
        }
        assert(letters@.take(letters@.len() as int) =~= letters@);
        Ok(s)
    }

    /// Insert one letter into the set.
    pub fn insert_letter(&mut self, c: char) -> (r: Result<(), FlagSetParseError>)
        ensures
            match letter_mask(c) {
                Some(m) => r is Ok && final(self).spec_bits() == old(self).spec_bits() | m,
                None => r == Err::<(), FlagSetParseError>(FlagSetParseError::InvalidChar(c))
                    && final(self).spec_bits() == old(self).spec_bits(),
            },
    {
        match letter_bit(c) {
            Some(bit) => {
                self.bits = self.bits | bit;
                Ok(())
            },
            None => Err(FlagSetParseError::InvalidChar(c)),
        }
    }

    /// Remove one letter from the set.
    pub fn remove_letter(&mut self, c: char) -> (r: Result<(), FlagSetParseError>)
        ensures
            match letter_mask(c) {
                Some(m) => r is Ok && final(self).spec_bits() == old(self).spec_bits() & !m,
                None => r == Err::<(), FlagSetParseError>(FlagSetParseError::InvalidChar(c))
                    && final(self).spec_bits() == old(self).spec_bits(),
            },
    {
        match letter_bit(c) {
            Some(bit) => {
                self.bits = self.bits & !bit;
                Ok(())
            },
            None => Err(FlagSetParseError::InvalidChar(c)),
        }
    }

    /// Whether the letter is in the set.
    #[must_use]
    pub fn contains_letter(self, c: char) -> (b: bool)
        ensures
            b == holds(self.spec_bits(), c),
    {
        match letter_bit(c) {
            Some(bit) => self.bits & bit != 0,
            None => false,
        }
    }

    /// Set union.
    #[must_use]
    pub fn union(self, other: Self) -> (r: Self)
        ensures
            r.spec_bits() == self.spec_bits() | other.spec_bits(),
    {
        FlagSet { bits: self.bits | other.bits }
    }

    /// Set intersection.
    #[must_use]
    pub fn intersection(self, other: Self) -> (r: Self)
        ensures
            r.spec_bits() == self.spec_bits() & other.spec_bits(),
    {
        FlagSet { bits: self.bits & other.bits }
    }

    /// Set difference.
    #[must_use]
    pub fn difference(self, other: Self) -> (r: Self)
        ensures
            r.spec_bits() == self.spec_bits() & !other.spec_bits(),
    {
        FlagSet { bits: self.bits & !other.bits }
    }

    /// Whether every bit in `other` is also set in `self`.
    #[must_use]
    pub fn contains(self, other: Self) -> (b: bool)
        ensures
            b == (self.spec_bits() & other.spec_bits() == other.spec_bits()),
    {
        self.bits & other.bits == other.bits
    }

    /// The letters present, in canonical order (a to z, then A to Z).
    pub fn letters(self) -> (v: Vec<char>)
        ensures
            v@ == letters_of(self.spec_bits()),
    {
        let mut v: Vec<char> = Vec::new();
        let mut i: u64 = 0;
        while i < LETTERS
            invariant
                i <= LETTERS,
                v@ == letters_below(self.bits, i as nat),
            decreases LETTERS - i,
        {
            if self.bits & (1u64 << i) != 0 {
                let c = if i < 26 { (97u8 + i as u8) as char } else { (65u8 + (i - 26) as u8) as char };
                v.push(c);
            }
            i = i + 1;
        }
        v
    }

    /// Apply a diff string (`+ox-d`, `+o`, `-x`). Order matters: a later `-c`
    /// removes what an earlier `+c` added. At the first character that is no
    /// letter the diff is rejected; what stood before it has been applied.
    pub fn apply_diff(&mut self, diff: &str) -> (r: Result<(), FlagSetParseError>)
        ensures
            ({
                let s = diff_applied(old(self).spec_bits(), diff@);
                &&& final(self).spec_bits() == s.bits
                &&& match s.bad {
                    None => r is Ok,
                    Some(c) => r == Err::<(), FlagSetParseError>(
                        FlagSetParseError::InvalidChar(c),
                    ),
                }
            }),
    {
        let cs = text::chars_of(diff);
        let ghost start = DiffState { bits: self.bits, adding: true, bad: None };
        let mut adding = true;
        let mut i: usize = 0;
        assert(diff@.take(0) =~= Seq::empty());
        while i < cs.len()
            invariant
                cs@ == diff@,
                i <= cs.len(),
                start == (DiffState { bits: old(self).bits, adding: true, bad: None }),
                diff_run(start, diff@.take(i as int)) == (DiffState {
                    bits: self.bits,
                    adding,
                    bad: None,
                }),
            decreases cs.len() - i,
        {
            proof {
                assert(diff@.take(i + 1).drop_last() =~= diff@.take(i as int));
                assert(diff@.take(i + 1).last() == cs@[i as int]);
            }
            let c = cs[i];
            if c == '+' {
                adding = true;
            } else if c == '-' {
                adding = false;
            } else if c == ' ' || c == '\t' {
            } else {
                let r = if adding { self.insert_letter(c) } else { self.remove_letter(c) };
                if r.is_err() {
                    proof {
                        lemma_diff_stops(start, diff@, i + 1);
                    }
                    return r;
                }
            }
            i = i + 1;
        }
        assert(diff@.take(diff@.len() as int) =~= diff@);
        Ok(())
    }

    /// The set that a diff string builds from the empty set.
    pub fn parse(s: &str) -> (r: Result<Self, FlagSetParseError>)
        ensures
            match r {
                Ok(f) => diff_applied(0, s@).bad is None && f.spec_bits() == diff_applied(
                    0,
                    s@,
                ).bits,
                Err(FlagSetParseError::InvalidChar(c)) => diff_applied(0, s@).bad == Some(c),
            },
    {
        let mut set = FlagSet::none();
        match set.apply_diff(s) {
            Ok(()) => Ok(set),
            Err(e) => Err(e),
        }
    }

    /// The canonical text of the set.
    pub fn to_string(&self) -> (s: String)
        ensures
            s@ == text_of(self.spec_bits()),
    {
        let mut s = String::new();
        if self.bits == 0 {
            return s;
        }
        s.push('+');
        let letters = self.letters();
        s.append(text::string_of(&letters, 0, letters.len()).as_str());
        assert(s@ =~= text_of(self.bits));
        s
    }
}

impl Default for FlagSet {
    fn default() -> (s: Self)
        ensures
            s.spec_bits() == 0,
    {
        FlagSet::none()
    }
}

impl std::str::FromStr for FlagSet {
    type Err = FlagSetParseError;

    /// As [`FlagSet::parse`].
    fn from_str(s: &str) -> (r: Result<Self, FlagSetParseError>)
        ensures
            match r {
                Ok(f) => diff_applied(0, s@).bad is None && f.spec_bits() == diff_applied(
                    0,
                    s@,
                ).bits,
                Err(FlagSetParseError::InvalidChar(c)) => diff_applied(0, s@).bad == Some(c),
            },
    {
        FlagSet::parse(s)
    }
}

impl std::ops::BitOr for FlagSet {
    type Output = FlagSet;

    fn bitor(self, rhs: Self) -> (r: FlagSet)
        ensures
            r.spec_bits() == self.spec_bits() | rhs.spec_bits(),
    {
        self.union(rhs)
    }
}

impl vstd::std_specs::ops::BitOrSpecImpl for FlagSet {
    open spec fn obeys_bitor_spec() -> bool {
        true
    }

    open spec fn bitor_req(self, rhs: Self) -> bool {
        true
    }

    closed spec fn bitor_spec(self, rhs: Self) -> FlagSet {
        FlagSet { bits: self.bits | rhs.bits }
    }
}

impl std::ops::BitAnd for FlagSet {
    type Output = FlagSet;

    fn bitand(self, rhs: Self) -> (r: FlagSet)
        ensures
            r.spec_bits() == self.spec_bits() & rhs.spec_bits(),
    {
        self.intersection(rhs)
    }
}

impl vstd::std_specs::ops::BitAndSpecImpl for FlagSet {
    open spec fn obeys_bitand_spec() -> bool {
        true
    }

    open spec fn bitand_req(self, rhs: Self) -> bool {
        true
    }

    closed spec fn bitand_spec(self, rhs: Self) -> FlagSet {
        FlagSet { bits: self.bits & rhs.bits }
    }
}

// ----- canonical user flag letters -------------------------------------------

/// `o`: auto-op on join (per channel).
pub const USER_OP: char = 'o';

/// `O`: auto-op everywhere (global).
pub const USER_AUTOOP: char = 'O';

/// `d`: auto-deop / never op (per channel).
pub const USER_DEOP: char = 'd';

/// `k`: auto-kick on join (per channel).
pub const USER_KICK: char = 'k';

/// `q`: auto-devoice / never voice (per channel).
pub const USER_QUIET: char = 'q';

/// `v`: auto-voice on join (per channel).
pub const USER_VOICE: char = 'v';

/// `x`: exempt from flood detection (per channel).
pub const USER_NOFLOOD: char = 'x';

/// `m`: channel master (admin within a channel).
pub const USER_MASTER: char = 'm';

/// `n`: owner (highest privilege; can edit other masters).
pub const USER_OWNER: char = 'n';

/// `a`: global admin (network-wide).
pub const USER_ADMIN: char = 'a';

/// `b`: bot account.
pub const USER_BOT: char = 'b';

// ----- laws ------------------------------------------------------------------

/// The bitmap of the first `n` letters.
spec fn full_below(n: nat) -> u64
    decreases n,
{
    if n == 0 {
        0
    } else {
        full_below((n - 1) as nat) | (1u64 << ((n - 1) as u64))
    }
}

proof fn lemma_full_below(n: nat)
    requires
        n <= 52,
    ensures
        full_below(n) == !(0xffff_ffff_ffff_ffffu64 << (n as u64)),
    decreases n,
{
    if n == 0 {
        assert(!(0xffff_ffff_ffff_ffffu64 << 0u64) == 0) by (bit_vector);
    } else {
        lemma_full_below((n - 1) as nat);
        let k = (n - 1) as u64;
        assert(!(0xffff_ffff_ffff_ffffu64 << k) | (1u64 << k) == !(0xffff_ffff_ffff_ffffu64 << (
        (k + 1) as u64))) by (bit_vector)
            requires
                k < 52,
        ;
    }
}

/// A letter's position is that of the letter at the position.
proof fn lemma_letter_at(i: int)
    requires
        0 <= i < 52,
    ensures
        letter_index(letter_at(i)) == Some(i as u64),
{
}

/// Reading the letters below `n` adds the bits below `n`.
proof fn lemma_read_letters(bits: u64, n: nat)
    requires
        n <= 52,
    ensures
        diff_run(DiffState { bits: 0, adding: true, bad: None }, seq!['+'] + letters_below(bits, n))
            == (DiffState { bits: bits & full_below(n), adding: true, bad: None }),
    decreases n,
{
    let start = DiffState { bits: 0, adding: true, bad: None };
    let d = seq!['+'] + letters_below(bits, n);
    if n == 0 {
        assert(d =~= seq!['+']);
        assert(d.drop_last() =~= Seq::empty());
        reveal_with_fuel(diff_run, 2);
        assert(bits & 0 == 0) by (bit_vector);
    } else {
        let k = (n - 1) as u64;
        let m = 1u64 << k;
        let low = full_below((n - 1) as nat);
        lemma_read_letters(bits, (n - 1) as nat);
        lemma_letter_at(n - 1);
        if bits & m != 0 {
            let before = seq!['+'] + letters_below(bits, (n - 1) as nat);
            assert(d.drop_last() =~= before);
            assert(d.last() == letter_at(n - 1));
            assert((bits & low) | m == bits & (low | m)) by (bit_vector)
                requires
                    m == 1u64 << k,
                    k < 52,
                    bits & m != 0,
            ;
        } else {
            assert(bits & low == bits & (low | m)) by (bit_vector)
                requires
                    bits & m == 0,
            ;
        }
    }
}

/// A set is its bitmap.
pub proof fn set_is_its_bitmap(s: FlagSet, bits: u64)
    ensures
        FlagSet::of_bits(bits).spec_bits() == bits,
        FlagSet::of_bits(s.spec_bits()) == s,
{
}

/// Reading a set's canonical text gives the set back. The text names letters
/// only, so this holds of sets without reserved bits.
pub proof fn text_round_trip(bits: u64)
    requires
        bits < 0x10_0000_0000_0000,
    ensures
        diff_applied(0, text_of(bits)).bad is None,
        diff_applied(0, text_of(bits)).bits == bits,
{
    lemma_read_letters(bits, 52);
    lemma_full_below(52);
    assert(bits & !(0xffff_ffff_ffff_ffffu64 << 52u64) == bits) by (bit_vector)
        requires
            bits < 0x10_0000_0000_0000,
    ;
}

/// The text is a function of the set, and different sets have different texts.
pub proof fn text_is_canonical(a: u64, b: u64)
    requires
        a < 0x10_0000_0000_0000,
        b < 0x10_0000_0000_0000,
    ensures
        text_of(a) == text_of(b) <==> a == b,
{
    text_round_trip(a);
    text_round_trip(b);
}

proof fn lemma_run_bits(s: DiffState, d: Seq<char>)
    requires
        s.bad is None,
        s.bits < 0x10_0000_0000_0000,
    ensures
        diff_run(s, d).bits < 0x10_0000_0000_0000,
    decreases d.len(),
{
    if d.len() > 0 {
        lemma_run_bits(s, d.drop_last());
        let t = diff_run(s, d.drop_last());
        if let Some(k) = letter_index(d.last()) {
            let m = 1u64 << k;
            let b = t.bits;
            assert(b | m < 0x10_0000_0000_0000) by (bit_vector)
                requires
                    m == 1u64 << k,
                    k < 52,
                    b < 0x10_0000_0000_0000,
            ;
            assert(b & !m < 0x10_0000_0000_0000) by (bit_vector)
                requires
                    b < 0x10_0000_0000_0000,
            ;
        }
    }
}

/// A parsed set has no reserved bits, so it survives being written and read
/// again.
pub proof fn parsed_sets_round_trip(d: Seq<char>)
    requires
        diff_applied(0, d).bad is None,
    ensures
        diff_applied(0, text_of(diff_applied(0, d).bits)).bits == diff_applied(0, d).bits,
{
    lemma_run_bits(DiffState { bits: 0, adding: true, bad: None }, d);
    text_round_trip(diff_applied(0, d).bits);
}

/// Inserting a letter makes it a member, removing it makes it none, and neither
/// touches another letter.
pub proof fn insert_and_remove(bits: u64, c: char, other: char)
    requires
        letter_index(c) is Some,
    ensures
        holds(bits | letter_mask(c).unwrap(), c),
        !holds(bits & !letter_mask(c).unwrap(), c),
        other != c ==> holds(bits | letter_mask(c).unwrap(), other) == holds(bits, other),
        other != c ==> holds(bits & !letter_mask(c).unwrap(), other) == holds(bits, other),
{
    let i = letter_index(c).unwrap();
    let m = 1u64 << i;
    assert((bits | m) & m != 0 && (bits & !m) & m == 0) by (bit_vector)
        requires
            m == 1u64 << i,
            i < 52,
    ;
    if other != c {
        if let Some(j) = letter_index(other) {
            let n = 1u64 << j;
            assert(i != j);
            assert((bits | m) & n == bits & n && (bits & !m) & n == bits & n) by (bit_vector)
                requires
                    m == 1u64 << i,
                    n == 1u64 << j,
                    i < 52,
                    j < 52,
                    i != j,
            ;
        }
    }
}

/// Union, intersection and difference act letter by letter.
pub proof fn set_operations(a: u64, b: u64, c: char)
    ensures
        holds(a | b, c) == (holds(a, c) || holds(b, c)),
        holds(a & b, c) == (holds(a, c) && holds(b, c)),
        holds(a & !b, c) == (holds(a, c) && !holds(b, c)),
{
    if let Some(i) = letter_index(c) {
        let m = 1u64 << i;
        assert((((a | b) & m != 0) == (a & m != 0 || b & m != 0)) && (((a & b) & m != 0) == (a & m
            != 0 && b & m != 0)) && (((a & !b) & m != 0) == (a & m != 0 && b & m == 0)))
            by (bit_vector)
            requires
                m == 1u64 << i,
                i < 52,
        ;
    }
}

/// Adding a letter that is present changes nothing, and so does removing one
/// that is absent.
pub proof fn redundant_changes_do_nothing(bits: u64, c: char)
    requires
        letter_index(c) is Some,
    ensures
        holds(bits, c) ==> bits | letter_mask(c).unwrap() == bits,
        !holds(bits, c) ==> bits & !letter_mask(c).unwrap() == bits,
{
    let i = letter_index(c).unwrap();
    let m = 1u64 << i;
    assert((bits & m != 0 ==> bits | m == bits) && (bits & m == 0 ==> bits & !m == bits))
        by (bit_vector)
        requires
            m == 1u64 << i,
            i < 52,
    ;
}

} // verus!
