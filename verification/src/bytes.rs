//! Big-endian numbers.

use vstd::prelude::*;

verus! {

/// The number that a byte string spells, most significant byte first.
pub open spec fn be_value(b: Seq<u8>) -> nat
    decreases b.len(),
{
    if b.len() == 0 {
        0
    } else {
        256 * be_value(b.drop_last()) + b.last() as nat
    }
}

/// The last `n` bytes of a number, most significant byte first.
pub open spec fn be_bytes(v: nat, n: nat) -> Seq<u8>
    decreases n,
{
    if n == 0 {
        Seq::empty()
    } else {
        be_bytes(v / 256, (n - 1) as nat).push((v % 256) as u8)
    }
}

/// How many numbers fit in `n` bytes.
pub open spec fn be_limit(n: nat) -> nat
    decreases n,
{
    if n == 0 {
        1
    } else {
        256 * be_limit((n - 1) as nat)
    }
}

/// A number that fits in `n` bytes is the one that its `n` bytes spell.
pub proof fn value_of_bytes(v: nat, n: nat)
    requires
        v < be_limit(n),
    ensures
        be_value(be_bytes(v, n)) == v,
        be_bytes(v, n).len() == n,
    decreases n,
{
    if n > 0 {
        value_of_bytes(v / 256, (n - 1) as nat);
        let b = be_bytes(v, n);
        assert(b.drop_last() =~= be_bytes(v / 256, (n - 1) as nat));
    }
}

/// A byte string is the bytes of the number it spells.
pub proof fn bytes_of_value(b: Seq<u8>)
    ensures
        be_bytes(be_value(b), b.len()) == b,
        be_value(b) < be_limit(b.len()),
    decreases b.len(),
{
    if b.len() > 0 {
        let head = b.drop_last();
        bytes_of_value(head);
        let v = be_value(b);
        assert(v / 256 == be_value(head));
        assert(v % 256 == b.last() as nat);
        assert(b =~= head.push(b.last()));
    }
}

/// Bounds for the widths in use.
pub proof fn limits()
    ensures
        be_limit(4) == 0x1_0000_0000,
        be_limit(8) == 0x1_0000_0000_0000_0000,
        be_limit(16) == 0x1_0000_0000_0000_0000_0000_0000_0000_0000,
{
    reveal_with_fuel(be_limit, 17);
}

/// Append the `n` low bytes of `v`, most significant byte first.
pub fn push_be(buf: &mut Vec<u8>, v: u64, n: usize)
    requires
        n <= 8,
    ensures
        final(buf)@ == old(buf)@ + be_bytes(v as nat, n as nat),
    decreases n,
{
    let ghost before = buf@;
    if n > 0 {
        push_be(buf, v / 256, n - 1);
        buf.push((v % 256) as u8);
    }
    assert(buf@ =~= before + be_bytes(v as nat, n as nat));
}

/// The number that `b[from..to]` spells.
pub fn read_be(b: &[u8], from: usize, to: usize) -> (v: u64)
    requires
        from <= to <= b@.len(),
        to - from <= 8,
    ensures
        v == be_value(b@.subrange(from as int, to as int)),
{
    let ghost part = b@.subrange(from as int, to as int);
    let mut v: u64 = 0;
    let mut i: usize = from;
    assert(part.take(0) =~= Seq::empty());
    while i < to
        invariant
            from <= i <= to <= b@.len(),
            to - from <= 8,
            part == b@.subrange(from as int, to as int),
            v == be_value(part.take(i - from)),
            v < be_limit((i - from) as nat),
        decreases to - i,
    {
        proof {
            assert(part.take(i - from + 1).drop_last() =~= part.take(i - from));
            assert(part.take(i - from + 1).last() == b@[i as int]);
            reveal_with_fuel(be_limit, 9);
        }
        v = v * 256 + b[i] as u64;
        i = i + 1;
    }
    assert(part.take(to - from) =~= part);
    v
}

/// The 64-bit two's complement of a signed number.
pub open spec fn signed_bits(x: i64) -> nat {
    if x >= 0 {
        x as nat
    } else {
        (x + 0x1_0000_0000_0000_0000) as nat
    }
}

/// The signed number with a given 64-bit two's complement.
pub open spec fn signed_of(bits: nat) -> int {
    if bits < 0x8000_0000_0000_0000 {
        bits as int
    } else {
        bits - 0x1_0000_0000_0000_0000
    }
}

/// The two's complement of `x`.
pub fn to_bits(x: i64) -> (v: u64)
    ensures
        v == signed_bits(x),
        signed_of(v as nat) == x,
{
    if x >= 0 {
        x as u64
    } else {
        (x as i128 + 0x1_0000_0000_0000_0000) as u64
    }
}

/// The signed number with the two's complement `v`.
pub fn from_bits(v: u64) -> (x: i64)
    ensures
        x == signed_of(v as nat),
        signed_bits(x) == v,
{
    if v < 0x8000_0000_0000_0000 {
        v as i64
    } else {
        (v as i128 - 0x1_0000_0000_0000_0000) as i64
    }
}

} // verus!
