//! Percent-encoding of path segments.

use vstd::prelude::*;
use vstd::string::*;
use vstd::utf8;

verus! {

/// Whether a byte stands for itself in a path segment.
pub open spec fn unreserved(b: u8) -> bool {
    (65 <= b <= 90) || (97 <= b <= 122) || (48 <= b <= 57) || b == 45 || b == 95 || b == 46 || b
        == 126
}

/// A hexadecimal digit, in upper case.
pub open spec fn hex_digit(n: int) -> char {
    if n < 10 {
        (48 + n) as char
    } else {
        (55 + n) as char
    }
}

/// A byte in a path segment.
pub open spec fn encoded_byte(b: u8) -> Seq<char> {
    if unreserved(b) {
        seq![b as char]
    } else {
        seq!['%', hex_digit(b as int / 16), hex_digit(b as int % 16)]
    }
}

/// Bytes in a path segment.
pub open spec fn encoded(b: Seq<u8>) -> Seq<char>
    decreases b.len(),
{
    if b.len() == 0 {
        Seq::empty()
    } else {
        encoded(b.drop_last()) + encoded_byte(b.last())
    }
}

/// A text as a path segment.
pub open spec fn segment(s: Seq<char>) -> Seq<char> {
    encoded(utf8::encode_utf8(s))
}

fn hex(n: u8) -> (c: char)
    requires
        n < 16,
    ensures
        c == hex_digit(n as int),
{
    if n < 10 {
        (48 + n) as char
    } else {
        (55 + n) as char
    }
}

/// A text as a path segment: letters, digits, `-`, `_`, `.` and `~` stand for
/// themselves, and every other byte of its UTF-8 form is written as `%` and two
/// hexadecimal digits.
pub fn percent_encode(s: &str) -> (r: String)
    ensures
        r@ == segment(s@),
{
    let b = s.as_bytes();
    let mut r = String::new();
    let mut i: usize = 0;
    assert(b@.take(0) =~= Seq::empty());
    while i < b.len()
        invariant
            i <= b@.len(),
            r@ == encoded(b@.take(i as int)),
        decreases b@.len() - i,
    {
        let x = b[i];
        proof {
            assert(b@.take(i + 1).drop_last() =~= b@.take(i as int));
            assert(b@.take(i + 1).last() == x);
        }
        let ghost before = r@;
        if (65 <= x && x <= 90) || (97 <= x && x <= 122) || (48 <= x && x <= 57) || x == 45 || x
            == 95 || x == 46 || x == 126 {
            r.push(x as char);
            assert(r@ =~= before + encoded_byte(x));
        } else {
            r.push('%');
            r.push(hex(x / 16));
            r.push(hex(x % 16));
            assert(r@ =~= before + encoded_byte(x));
        }
        i = i + 1;
    }
    assert(b@.take(b@.len() as int) =~= b@);
    r
}

// ----- laws ------------------------------------------------------------------

/// Whether a character can stand in an encoded segment.
pub open spec fn safe(c: char) -> bool {
    c == '%' || ('A' <= c <= 'Z') || ('a' <= c <= 'z') || ('0' <= c <= '9') || c == '-' || c == '_'
        || c == '.' || c == '~'
}

/// An encoded segment has no separator in it, and nothing else that a URL would
/// read in its own way.
pub proof fn segments_are_safe(b: Seq<u8>)
    ensures
        forall|i: int| 0 <= i < encoded(b).len() ==> safe(#[trigger] encoded(b)[i]),
    decreases b.len(),
{
    if b.len() > 0 {
        let head = b.drop_last();
        segments_are_safe(head);
        let x = b.last();
        let tail = encoded_byte(x);
        assert forall|i: int| 0 <= i < tail.len() implies safe(#[trigger] tail[i]) by {}
        assert forall|i: int| 0 <= i < encoded(b).len() implies safe(#[trigger] encoded(b)[i]) by {
            if i < encoded(head).len() {
                assert(encoded(b)[i] == encoded(head)[i]);
            } else {
                assert(encoded(b)[i] == tail[i - encoded(head).len()]);
            }
        }
    }
}

/// The value of a hexadecimal digit.
pub open spec fn hex_value(c: char) -> int {
    if c <= '9' {
        c as int - 48
    } else {
        c as int - 55
    }
}

/// The bytes of a segment, read from its end.
pub open spec fn decoded(s: Seq<char>) -> Seq<u8>
    decreases s.len(),
{
    if s.len() == 0 {
        Seq::empty()
    } else if s.len() >= 3 && s[s.len() - 3] == '%' {
        decoded(s.take(s.len() - 3)).push(
            (16 * hex_value(s[s.len() - 2]) + hex_value(s[s.len() - 1])) as u8,
        )
    } else {
        decoded(s.drop_last()).push(s.last() as u8)
    }
}

/// Nothing is lost in encoding: the bytes can be read back.
pub proof fn segments_can_be_read_back(b: Seq<u8>)
    ensures
        decoded(encoded(b)) == b,
    decreases b.len(),
{
    if b.len() > 0 {
        let head = b.drop_last();
        let x = b.last();
        let s = encoded(b);
        let h = encoded(head);
        segments_can_be_read_back(head);
        if unreserved(x) {
            lemma_no_escape_before(head, x);
            assert(s.drop_last() =~= h);
            assert(s.last() == x as char);
            assert((x as char) as u8 == x);
        } else {
            assert(s.take(s.len() - 3) =~= h);
            assert(s[s.len() - 3] == '%');
            assert(s[s.len() - 2] == hex_digit(x as int / 16));
            assert(s[s.len() - 1] == hex_digit(x as int % 16));
            lemma_hex(x as int / 16);
            lemma_hex(x as int % 16);
        }
        assert(b =~= head.push(x));
    } else {
        assert(encoded(b).len() == 0);
        assert(decoded(encoded(b)) =~= b);
    }
}

proof fn lemma_hex(n: int)
    requires
        0 <= n < 16,
    ensures
        hex_value(hex_digit(n)) == n,
{
}

/// Behind an encoded byte string, a byte that stands for itself does not look
/// like the end of an escape.
proof fn lemma_no_escape_before(b: Seq<u8>, x: u8)
    requires
        unreserved(x),
    ensures
        ({
            let s = encoded(b) + seq![x as char];
            s.len() >= 3 ==> s[s.len() - 3] != '%'
        }),
{
    let h = encoded(b);
    let s = h + seq![x as char];
    if s.len() >= 3 {
        assert(s[s.len() - 3] == h[h.len() - 2]);
        lemma_percent_place(b);
    }
}

/// No `%` is the last character but one of an encoded byte string, nor the last.
proof fn lemma_percent_place(b: Seq<u8>)
    ensures
        ({
            let h = encoded(b);
            &&& h.len() >= 1 ==> h[h.len() - 1] != '%'
            &&& h.len() >= 2 ==> h[h.len() - 2] != '%'
        }),
    decreases b.len(),
{
    if b.len() > 0 {
        let head = b.drop_last();
        lemma_percent_place(head);
        let h = encoded(b);
        let x = b.last();
        if unreserved(x) {
            assert(h[h.len() - 1] == x as char);
            if h.len() >= 2 {
                assert(h[h.len() - 2] == encoded(head)[encoded(head).len() - 1]);
            }
        } else {
            assert(h[h.len() - 1] == hex_digit(x as int % 16));
            assert(h[h.len() - 2] == hex_digit(x as int / 16));
        }
    }
}

} // verus!
