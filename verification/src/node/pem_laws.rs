//! What is found in a PEM text, and what fits into a certificate.

use crate::node::cert_names;
use crate::node::cert_names::{Constraint, Moment, NamePart};
use crate::node::pem_text;
use crate::node::pem_text::PemError;
use crate::text;
use vstd::prelude::*;

verus! {

/// Whether a block is tagged as a certificate, in capitals or not.
pub open spec fn is_certificate(b: (String, Vec<u8>)) -> bool {
    text::lower(b.0@) == text::lower("CERTIFICATE"@)
}

/// Whether a block is tagged as a key, in capitals or not.
pub open spec fn is_key(b: (String, Vec<u8>)) -> bool {
    text::lower(b.0@) == text::lower("PRIVATE KEY"@) || text::lower(b.0@) == text::lower(
        "PKCS8 PRIVATE KEY"@,
    )
}

/// Certificates are taken block by block: the blocks up to one more give what the blocks
/// before it give, and that block's contents behind them if it is a certificate.
pub proof fn certificates_keep_their_order(
    before: &Vec<(String, Vec<u8>)>,
    block: (String, Vec<u8>),
    all: &Vec<(String, Vec<u8>)>,
    r: Vec<Vec<u8>>,
    s: Vec<Vec<u8>>,
)
    requires
        all@ == before@.push(block),
        call_ensures(pem_text::certificates_of, (before,), r),
        call_ensures(pem_text::certificates_of, (all,), s),
    ensures
        before@.len() == 0 ==> r@.len() == 0,
        s@.len() == r@.len() + (if is_certificate(block) {
            1int
        } else {
            0int
        }),
        forall|i: int| 0 <= i < r@.len() ==> (#[trigger] s@[i])@ == r@[i]@,
        is_certificate(block) ==> s@.last()@ == block.1@,
{
    let a = pem_text::blocks_view(before@);
    let b = pem_text::blocks_view(all@);
    assert(b =~= a.push((block.0@, block.1@)));
    assert(b.drop_last() =~= a);
    let x = pem_text::byte_views(r@);
    let y = pem_text::byte_views(s@);
    assert(x.len() == r@.len() && y.len() == s@.len());
    assert forall|i: int| 0 <= i < r@.len() implies (#[trigger] s@[i])@ == r@[i]@ by {
        assert(y[i] == x[i]);
    }
    if is_certificate(block) {
        assert(y[r@.len() as int] == block.1@);
    }
}

/// The first block that is a key is the key.
pub proof fn first_key_is_taken(blocks: &Vec<(String, Vec<u8>)>, r: Option<Vec<u8>>, i: int)
    requires
        call_ensures(pem_text::key_of, (blocks,), r),
        0 <= i < blocks@.len(),
        forall|j: int| 0 <= j < i ==> !is_key(#[trigger] blocks@[j]),
    ensures
        is_key(blocks@[i]) ==> (r matches Some(k) && k@ == blocks@[i].1@),
        !is_key(blocks@[i]) && i == blocks@.len() - 1 ==> r is None,
{
    let l = pem_text::blocks_view(blocks@);
    assert forall|j: int| 0 <= j < i implies !pem_text::tags_key((#[trigger] l[j]).0) by {
        assert(!is_key(blocks@[j]));
    }
    lemma_first_key(l, i);
}

proof fn lemma_first_key(l: Seq<(Seq<char>, Seq<u8>)>, i: int)
    requires
        0 <= i < l.len(),
        forall|j: int| 0 <= j < i ==> !pem_text::tags_key((#[trigger] l[j]).0),
    ensures
        pem_text::tags_key(l[i].0) ==> pem_text::first_key(l) == Some(l[i].1),
        !pem_text::tags_key(l[i].0) && i == l.len() - 1 ==> pem_text::first_key(l) is None,
    decreases i,
{
    reveal_with_fuel(pem_text::first_key, 2);
    if i > 0 {
        assert(!pem_text::tags_key(l[0].0));
        let d = l.drop_first();
        assert forall|j: int| 0 <= j < i - 1 implies !pem_text::tags_key((#[trigger] d[j]).0) by {
            assert(d[j] == l[j + 1]);
        }
        lemma_first_key(d, i - 1);
    }
}

/// A text with blocks but without a certificate is refused for that, one without a key for
/// that, and one that is no PEM text with what the parser says.
pub proof fn missing_blocks_are_told(
    input: &[u8],
    certs: Result<Vec<Vec<u8>>, PemError>,
    key: Result<Vec<u8>, PemError>,
)
    requires
        call_ensures(pem_text::read_pem_certs, (input,), certs),
        call_ensures(pem_text::read_pem_key, (input,), key),
    ensures
        match pem_text::pem_parsed(input@) {
            Err(m) => {
                &&& certs matches Err(e) && e matches PemError::Parse(t) && t@ == m
                &&& key matches Err(e) && e matches PemError::Parse(t) && t@ == m
            },
            Ok(l) => {
                &&& (certs matches Err(e) ==> e is NoCertificate)
                &&& (key matches Err(e) ==> e is NoKey)
                &&& (forall|i: int|
                    0 <= i < l.len() ==> !pem_text::tags_certificate((#[trigger] l[i]).0))
                    ==> certs is Err
                &&& (forall|i: int|
                    0 <= i < l.len() ==> !pem_text::tags_key((#[trigger] l[i]).0)) ==> key is Err
                &&& certs matches Ok(v) ==> v@.len() > 0
            },
        },
{
    if let Ok(l) = pem_text::pem_parsed(input@) {
        if forall|i: int| 0 <= i < l.len() ==> !pem_text::tags_certificate((#[trigger] l[i]).0) {
            lemma_no_certificate(l);
        }
        if forall|i: int| 0 <= i < l.len() ==> !pem_text::tags_key((#[trigger] l[i]).0) {
            if l.len() > 0 {
                assert(!pem_text::tags_key(l[l.len() - 1].0));
                lemma_first_key(l, l.len() - 1);
            }
        }
        if let Ok(v) = certs {
            assert(pem_text::byte_views(v@).len() == v@.len());
        }
    }
}

proof fn lemma_no_certificate(l: Seq<(Seq<char>, Seq<u8>)>)
    requires
        forall|i: int| 0 <= i < l.len() ==> !pem_text::tags_certificate((#[trigger] l[i]).0),
    ensures
        pem_text::certificates(l).len() == 0,
    decreases l.len(),
{
    if l.len() > 0 {
        let d = l.drop_last();
        assert(!pem_text::tags_certificate(l[l.len() - 1].0));
        assert forall|i: int| 0 <= i < d.len() implies !pem_text::tags_certificate(
            (#[trigger] d[i]).0,
        ) by {
            assert(d[i] == l[i]);
        }
        lemma_no_certificate(d);
    }
}

/// An object identifier starts with 0, 1 or 2; behind 0 and 1 the second arc is below 40,
/// and behind 2 its sum with 80 stays below the largest number of 64 bits.
pub proof fn identifiers_start_with_two_arcs(arcs: &Vec<u64>, b: bool)
    requires
        call_ensures(cert_names::identifier_fits, (arcs,), b),
    ensures
        arcs@.len() < 2 ==> !b,
        b ==> arcs@[0] <= 2 && arcs@[1] + 80 < u64::MAX,
        arcs@.len() >= 2 && arcs@[0] <= 1 ==> (b <==> arcs@[1] <= 39),
        arcs@.len() >= 2 && arcs@[0] == 2 ==> (b <==> arcs@[1] + 80 < u64::MAX),
{
}

/// A part of a name fits unless its identifier does not, or a question mark stands in a
/// text that may hold none.
pub proof fn question_marks_are_kept_out(p: &NamePart, b: bool, i: int)
    requires
        call_ensures(cert_names::part_fits, (p,), b),
    ensures
        p.identifier is None && p.printable is None ==> b,
        (p.printable matches Some(t) && 0 <= i < t@.len() && t@[i] == '?') ==> !b,
        p.identifier is None && (p.printable matches Some(t) && (forall|j: int|
            0 <= j < t@.len() ==> #[trigger] t@[j] != '?')) ==> b,
        (p.identifier matches Some(a) && a@.len() < 2) ==> !b,
{
}

/// A constraint on texts fits when all its characters are below 128; one on addresses
/// always does.
pub proof fn constraints_are_plain(c: &Constraint, b: bool)
    requires
        call_ensures(cert_names::constraint_fits, (c,), b),
    ensures
        *c is Address ==> b,
        *c matches Constraint::Text(t) ==> (b <==> (forall|i: int|
            0 <= i < t@.len() ==> (#[trigger] t@[i] as int) < 128)),
{
}

/// A date in universal time fits from the year 0 to the end of the year 9999. One that is
/// in the years from 1950 to 2049 by a clock of its own has to be in them in universal time
/// too.
pub proof fn dates_have_four_digits(m: Moment, b: bool)
    requires
        call_ensures(cert_names::moment_fits, (m,), b),
    ensures
        m.offset == 0 ==> (b <==> -62_167_219_200 <= m.unix < 253_402_300_800),
        b && -631_152_000 <= m.unix + m.offset < 2_524_608_000 ==> -631_152_000 <= m.unix
            < 2_524_608_000,
        b ==> -62_167_219_200 <= m.unix < 253_402_300_800,
{
}

} // verus!
