//! Record identifiers: 128-bit ULIDs, sortable by creation time.

use crate::bytes;
use crate::model::time;
use crate::text;
use std::time::SystemTime;
use vstd::prelude::*;
use vstd::utf8;

verus! {

// ----- text -------------------------------------------------------------------

/// The base-32 digit of value `d`: the digits and capitals without I, L, O and U.
pub open spec fn crockford(d: int) -> char {
    if d < 10 {
        ('0' as int + d) as char
    } else if d < 18 {
        ('A' as int + d - 10) as char
    } else if d < 20 {
        ('J' as int + d - 18) as char
    } else if d < 22 {
        ('M' as int + d - 20) as char
    } else if d < 27 {
        ('P' as int + d - 22) as char
    } else {
        ('V' as int + d - 27) as char
    }
}

/// The value of a base-32 digit, a capital or not.
pub open spec fn crockford_value(c: char) -> Option<int> {
    let l = text::lower_char(c);
    if '0' <= c <= '9' {
        Some(c as int - '0' as int)
    } else if 'a' <= l <= 'h' {
        Some(l as int - 'a' as int + 10)
    } else if 'j' <= l <= 'k' {
        Some(l as int - 'j' as int + 18)
    } else if 'm' <= l <= 'n' {
        Some(l as int - 'm' as int + 20)
    } else if 'p' <= l <= 't' {
        Some(l as int - 'p' as int + 22)
    } else if 'v' <= l <= 'z' {
        Some(l as int - 'v' as int + 27)
    } else {
        None
    }
}

/// The last `n` base-32 digits of a number.
pub open spec fn last_digits(v: nat, n: nat) -> Seq<char>
    decreases n,
{
    if n == 0 {
        Seq::empty()
    } else {
        last_digits(v / 32, (n - 1) as nat).push(crockford((v % 32) as int))
    }
}

/// The number that base-32 digits spell, if they all are such digits.
pub open spec fn digits_number(s: Seq<char>) -> Option<int>
    decreases s.len(),
{
    if s.len() == 0 {
        Some(0)
    } else {
        match (digits_number(s.drop_last()), crockford_value(s.last())) {
            (Some(n), Some(d)) => Some(n * 32 + d),
            _ => None,
        }
    }
}

/// The text of a ULID: 26 base-32 digits.
pub open spec fn ulid_text(v: u128) -> Seq<char> {
    last_digits(v as nat, 26)
}

/// The ULID that a text spells, or the message of the error that it is. Of more
/// than 128 bits the last 128 count.
pub open spec fn ulid_parsed(s: Seq<char>) -> Result<u128, Seq<char>> {
    if utf8::encode_utf8(s).len() != 26 {
        Err("invalid length"@)
    } else {
        match digits_number(s) {
            Some(n) => Ok((n % (u128::MAX + 1)) as u128),
            None => Err("invalid character"@),
        }
    }
}

/// Whether `s` spells the ULID `v`.
pub open spec fn spells(s: Seq<char>, v: u128) -> bool {
    ulid_parsed(s) == Ok::<u128, Seq<char>>(v)
}

/// The view of a parsing result.
pub open spec fn parse_view(r: Result<u128, String>) -> Result<u128, Seq<char>> {
    match r {
        Ok(v) => Ok(v),
        Err(e) => Err(e@),
    }
}

// ----- time ---------------------------------------------------------------------

/// The milliseconds in a ULID: its upper 48 bits.
pub open spec fn ulid_millis(v: u128) -> int {
    v as int / 0x1_0000_0000_0000_0000_0000
}

/// Whether a ULID carries the time of a reading of the clock, as far as it fits.
pub open spec fn is_dated(v: u128, reading: SystemTime) -> bool {
    ulid_millis(v) == time::reading_millis(reading) % 0x1_0000_0000_0000
}

/// Whether a ULID carries the time of some reading of the clock.
pub open spec fn is_fresh(v: u128) -> bool {
    exists|reading: SystemTime| #[trigger] is_dated(v, reading)
}

// ----- outside calls -------------------------------------------------------------

/// `ulid::Ulid::from_datetime`: the milliseconds of the time, zero before the Unix
/// epoch, modulo 2 to the power of 48, in the upper 48 bits. The others are random;
/// nothing is claimed of them.
#[verifier::external_body]
pub(crate) fn ulid_at(reading: SystemTime) -> (v: u128)
    ensures
        ulid_millis(v) == time::reading_millis(reading) % 0x1_0000_0000_0000,
{
    ulid::Ulid::from_datetime(reading).0
}

/// `ulid::Ulid::to_bytes` gives the value's 16 bytes, most significant first.
#[verifier::external_body]
pub(crate) fn ulid_to_bytes(v: u128) -> (b: [u8; 16])
    ensures
        b@ == bytes::be_bytes(v as nat, 16),
{
    ulid::Ulid(v).to_bytes()
}

/// `ulid::Ulid::from_bytes` reads 16 bytes, most significant first.
#[verifier::external_body]
pub(crate) fn ulid_from_bytes(b: [u8; 16]) -> (v: u128)
    ensures
        v as nat == bytes::be_value(b@),
{
    ulid::Ulid::from_bytes(b).0
}

/// `ulid::Ulid::to_string`: the 26 base-32 digits of the value.
#[verifier::external_body]
pub(crate) fn ulid_to_string(v: u128) -> (s: String)
    ensures
        s@ == ulid_text(v),
{
    ulid::Ulid(v).to_string()
}

/// `ulid::Ulid::from_string`: the value of 26 base-32 digits, or an error that says
/// whether the length in bytes or a character is wrong, the length first.
#[verifier::external_body]
pub(crate) fn ulid_from_string(s: &str) -> (r: Result<u128, String>)
    ensures
        ulid_parsed(s@) == parse_view(r),
{
    ulid::Ulid::from_string(s).map(|u| u.0).map_err(|e| e.to_string())
}

/// A ULID with the time that the clock shows.
pub(crate) fn fresh_ulid() -> (v: u128)
    ensures
        is_fresh(v),
{
    let reading = SystemTime::now();
    let v = ulid_at(reading);
    assert(is_dated(v, reading));
    v
}

/// Stable user identifier.
#[derive(Debug, Clone, Copy, PartialEq, Eq, Hash, Structural)]
pub struct UserId(pub u128);

/// Stable channel identifier.
#[derive(Debug, Clone, Copy, PartialEq, Eq, Hash, Structural)]
pub struct ChannelId(pub u128);

/// Stable mask identifier.
#[derive(Debug, Clone, Copy, PartialEq, Eq, Hash, Structural)]
pub struct MaskId(pub u128);

/// Stable audit-record identifier.
#[derive(Debug, Clone, Copy, PartialEq, Eq, Hash, Structural)]
pub struct AuditId(pub u128);

impl Default for UserId {
    /// A fresh identifier.
    fn default() -> (id: Self)
        ensures
            is_fresh(id.0),
    {
        UserId::new()
    }
}

impl UserId {
    /// A fresh identifier, made from the clock and random bits.
    #[must_use]
    pub fn new() -> (id: Self)
        ensures
            is_fresh(id.0),
    {
        UserId(fresh_ulid())
    }

    /// An identifier made at a reading of the clock, with random bits.
    #[must_use]
    pub fn made_at(reading: SystemTime) -> (id: Self)
        ensures
            is_dated(id.0, reading),
    {
        UserId(ulid_at(reading))
    }

    /// The identifier as 16 big-endian bytes.
    #[must_use]
    pub fn as_bytes(self) -> (b: [u8; 16])
        ensures
            b@ == bytes::be_bytes(self.0 as nat, 16),
    {
        ulid_to_bytes(self.0)
    }

    /// The identifier with the given big-endian bytes.
    #[must_use]
    pub fn from_bytes(bytes: [u8; 16]) -> (id: Self)
        ensures
            id.0 as nat == bytes::be_value(bytes@),
    {
        UserId(ulid_from_bytes(bytes))
    }

    /// The identifier's 26-character text.
    pub fn to_string(&self) -> (s: String)
        ensures
            s@ == ulid_text(self.0),
            s@.len() == 26,
            spells(s@, self.0),
    {
        proof {
            text_spells_id(self.0);
        }
        ulid_to_string(self.0)
    }
}

impl Default for ChannelId {
    /// A fresh identifier.
    fn default() -> (id: Self)
        ensures
            is_fresh(id.0),
    {
        ChannelId::new()
    }
}

impl ChannelId {
    /// A fresh identifier, made from the clock and random bits.
    #[must_use]
    pub fn new() -> (id: Self)
        ensures
            is_fresh(id.0),
    {
        ChannelId(fresh_ulid())
    }

    /// An identifier made at a reading of the clock, with random bits.
    #[must_use]
    pub fn made_at(reading: SystemTime) -> (id: Self)
        ensures
            is_dated(id.0, reading),
    {
        ChannelId(ulid_at(reading))
    }

    /// The identifier as 16 big-endian bytes.
    #[must_use]
    pub fn as_bytes(self) -> (b: [u8; 16])
        ensures
            b@ == bytes::be_bytes(self.0 as nat, 16),
    {
        ulid_to_bytes(self.0)
    }

    /// The identifier with the given big-endian bytes.
    #[must_use]
    pub fn from_bytes(bytes: [u8; 16]) -> (id: Self)
        ensures
            id.0 as nat == bytes::be_value(bytes@),
    {
        ChannelId(ulid_from_bytes(bytes))
    }

    /// The identifier's 26-character text.
    pub fn to_string(&self) -> (s: String)
        ensures
            s@ == ulid_text(self.0),
            s@.len() == 26,
            spells(s@, self.0),
    {
        proof {
            text_spells_id(self.0);
        }
        ulid_to_string(self.0)
    }
}

impl Default for MaskId {
    /// A fresh identifier.
    fn default() -> (id: Self)
        ensures
            is_fresh(id.0),
    {
        MaskId::new()
    }
}

impl MaskId {
    /// A fresh identifier, made from the clock and random bits.
    #[must_use]
    pub fn new() -> (id: Self)
        ensures
            is_fresh(id.0),
    {
        MaskId(fresh_ulid())
    }

    /// An identifier made at a reading of the clock, with random bits.
    #[must_use]
    pub fn made_at(reading: SystemTime) -> (id: Self)
        ensures
            is_dated(id.0, reading),
    {
        MaskId(ulid_at(reading))
    }

    /// The identifier as 16 big-endian bytes.
    #[must_use]
    pub fn as_bytes(self) -> (b: [u8; 16])
        ensures
            b@ == bytes::be_bytes(self.0 as nat, 16),
    {
        ulid_to_bytes(self.0)
    }

    /// The identifier with the given big-endian bytes.
    #[must_use]
    pub fn from_bytes(bytes: [u8; 16]) -> (id: Self)
        ensures
            id.0 as nat == bytes::be_value(bytes@),
    {
        MaskId(ulid_from_bytes(bytes))
    }

    /// The identifier's 26-character text.
    pub fn to_string(&self) -> (s: String)
        ensures
            s@ == ulid_text(self.0),
            s@.len() == 26,
            spells(s@, self.0),
    {
        proof {
            text_spells_id(self.0);
        }
        ulid_to_string(self.0)
    }

    /// The identifier that a text spells, or why it spells none.
    pub fn parse(s: &str) -> (r: Result<Self, String>)
        ensures
            match r {
                Ok(id) => spells(s@, id.0),
                Err(e) => ulid_parsed(s@) == Err::<u128, Seq<char>>(e@),
            },
    {
        match ulid_from_string(s) {
            Ok(v) => Ok(MaskId(v)),
            Err(e) => Err(e),
        }
    }
}

impl Default for AuditId {
    /// A fresh identifier.
    fn default() -> (id: Self)
        ensures
            is_fresh(id.0),
    {
        AuditId::new()
    }
}

impl AuditId {
    /// A fresh identifier, made from the clock and random bits.
    #[must_use]
    pub fn new() -> (id: Self)
        ensures
            is_fresh(id.0),
    {
        AuditId(fresh_ulid())
    }

    /// An identifier made at a reading of the clock, with random bits.
    #[must_use]
    pub fn made_at(reading: SystemTime) -> (id: Self)
        ensures
            is_dated(id.0, reading),
    {
        AuditId(ulid_at(reading))
    }

    /// The identifier as 16 big-endian bytes.
    #[must_use]
    pub fn as_bytes(self) -> (b: [u8; 16])
        ensures
            b@ == bytes::be_bytes(self.0 as nat, 16),
    {
        ulid_to_bytes(self.0)
    }

    /// The identifier with the given big-endian bytes.
    #[must_use]
    pub fn from_bytes(bytes: [u8; 16]) -> (id: Self)
        ensures
            id.0 as nat == bytes::be_value(bytes@),
    {
        AuditId(ulid_from_bytes(bytes))
    }
}

/// The text of an identifier is 26 characters long and spells it.
pub proof fn text_spells_id(v: u128)
    ensures
        ulid_text(v).len() == 26,
        spells(ulid_text(v), v),
{
    lemma_digits(v as nat, 26);
    let s = ulid_text(v);
    assert(pow32(26) == 0x4_0000_0000_0000_0000_0000_0000_0000_0000) by {
        reveal_with_fuel(pow32, 27);
    }
    assert(v as nat % pow32(26) == v) by {
        vstd::arithmetic::div_mod::lemma_small_mod(v as nat, pow32(26));
    }
    utf8::is_ascii_chars_encode_utf8(s);
}

/// 32 to the power of `n`.
spec fn pow32(n: nat) -> nat
    decreases n,
{
    if n == 0 {
        1
    } else {
        32 * pow32((n - 1) as nat)
    }
}

proof fn lemma_digits(v: nat, n: nat)
    ensures
        last_digits(v, n).len() == n,
        digits_number(last_digits(v, n)) == Some((v % pow32(n)) as int),
        utf8::is_ascii_chars(last_digits(v, n)),
        pow32(n) >= 1,
    decreases n,
{
    if n > 0 {
        let m = (n - 1) as nat;
        lemma_digits(v / 32, m);
        let s = last_digits(v, n);
        assert(s.drop_last() =~= last_digits(v / 32, m));
        let d = (v % 32) as int;
        assert(crockford_value(crockford(d)) == Some(d));
        assert('\0' <= crockford(d) <= '\u{7f}');
        let p = pow32(m);
        assert((v / 32) % p * 32 + v % 32 == v % (32 * p)) by (nonlinear_arith)
            requires
                p >= 1,
        {
            let q = (v / 32) / p;
            let r = (v / 32) % p;
            assert(v / 32 == q * p + r);
            assert(v == 32 * (v / 32) + v % 32);
            assert(v == q * (32 * p) + (r * 32 + v % 32));
            assert(0 <= r * 32 + v % 32 < 32 * p);
            vstd::arithmetic::div_mod::lemma_fundamental_div_mod_converse(
                v as int,
                (32 * p) as int,
                q as int,
                (r * 32 + v % 32) as int,
            );
        }
    }
}

/// Identifiers sort by when they were made: of two that carry different times, the
/// later one is larger. Times are told apart until the year 10889.
pub proof fn ids_sort_by_time(a: u128, b: u128, first: SystemTime, later: SystemTime)
    requires
        is_dated(a, first),
        is_dated(b, later),
        time::reading_millis(first) < time::reading_millis(later) < 0x1_0000_0000_0000,
    ensures
        a < b,
{
    assert(ulid_millis(a) < ulid_millis(b));
}

/// An identifier survives being written as bytes and read back.
pub proof fn id_survives_bytes(v: u128)
    ensures
        bytes::be_value(bytes::be_bytes(v as nat, 16)) == v,
{
    bytes::limits();
    bytes::value_of_bytes(v as nat, 16);
}

/// Sixteen bytes survive being read as an identifier and written back.
pub proof fn bytes_survive_id(b: Seq<u8>)
    requires
        b.len() == 16,
    ensures
        bytes::be_bytes(bytes::be_value(b), 16) == b,
{
    bytes::bytes_of_value(b);
}

} // verus!
