//! Certificates and keys in PEM text.

use crate::text;
use vstd::prelude::*;

verus! {

/// The tags and contents of the blocks in a PEM text, or the message of the
/// error that it is.
pub uninterp spec fn pem_parsed(input: Seq<u8>) -> Result<Seq<(Seq<char>, Seq<u8>)>, Seq<char>>;

/// The views of a list of blocks.
pub open spec fn blocks_view(v: Seq<(String, Vec<u8>)>) -> Seq<(Seq<char>, Seq<u8>)> {
    Seq::new(v.len(), |i: int| (v[i].0@, v[i].1@))
}

/// The view of a parsing result.
pub open spec fn parse_view(r: Result<Vec<(String, Vec<u8>)>, String>) -> Result<
    Seq<(Seq<char>, Seq<u8>)>,
    Seq<char>,
> {
    match r {
        Ok(v) => Ok(blocks_view(v@)),
        Err(e) => Err(e@),
    }
}

/// `pem::parse_many`: the tag and the contents of each block, or the text of its
/// error, are functions of the input alone.
#[verifier::external_body]
pub(crate) fn parse_blocks(input: &[u8]) -> (r: Result<Vec<(String, Vec<u8>)>, String>)
    ensures
        pem_parsed(input@) == parse_view(r),
{
    match pem::parse_many(input) {
        Ok(l) => Ok(l.iter().map(|p| (p.tag().to_owned(), p.contents().to_vec())).collect()),
        Err(e) => Err(e.to_string()),
    }
}

/// Why a PEM text does not hold what it should.
#[derive(Debug, Clone, PartialEq, Eq)]
pub enum PemError {
    /// It is no PEM text; the parser's message.
    Parse(String),
    /// It holds no certificate.
    NoCertificate,
    /// It holds no PKCS#8 key.
    NoKey,
}

/// What a [`PemError`] says.
pub enum PemFault {
    Parse(Seq<char>),
    NoCertificate,
    NoKey,
}

impl View for PemError {
    type V = PemFault;

    open spec fn view(&self) -> PemFault {
        match *self {
            PemError::Parse(m) => PemFault::Parse(m@),
            PemError::NoCertificate => PemFault::NoCertificate,
            PemError::NoKey => PemFault::NoKey,
        }
    }
}

impl PemError {
    /// The message of the error, about the file at `path`.
    pub fn message(&self, path: &str) -> (s: String)
        ensures
            s@ == match *self {
                PemError::Parse(m) => "parsing PEM at "@ + path@ + ": "@ + m@,
                PemError::NoCertificate => "no CERTIFICATE blocks in PEM at "@ + path@,
                PemError::NoKey => "no PKCS#8 PRIVATE KEY block in PEM at "@ + path@,
            },
    {
        match self {
            PemError::Parse(m) => {
                let a = text::concat("parsing PEM at ", path);
                let b = text::concat(a.as_str(), ": ");
                text::concat(b.as_str(), m.as_str())
            },
            PemError::NoCertificate => text::concat("no CERTIFICATE blocks in PEM at ", path),
            PemError::NoKey => text::concat("no PKCS#8 PRIVATE KEY block in PEM at ", path),
        }
    }
}

/// Whether a tag marks a certificate.
pub open spec fn tags_certificate(tag: Seq<char>) -> bool {
    text::lower(tag) == text::lower("CERTIFICATE"@)
}

/// Whether a tag marks a PKCS#8 key.
pub open spec fn tags_key(tag: Seq<char>) -> bool {
    text::lower(tag) == text::lower("PRIVATE KEY"@) || text::lower(tag) == text::lower(
        "PKCS8 PRIVATE KEY"@,
    )
}

/// The certificates among blocks, in order.
pub open spec fn certificates(l: Seq<(Seq<char>, Seq<u8>)>) -> Seq<Seq<u8>>
    decreases l.len(),
{
    if l.len() == 0 {
        Seq::empty()
    } else if tags_certificate(l.last().0) {
        certificates(l.drop_last()).push(l.last().1)
    } else {
        certificates(l.drop_last())
    }
}

/// The first key among blocks.
pub open spec fn first_key(l: Seq<(Seq<char>, Seq<u8>)>) -> Option<Seq<u8>>
    decreases l.len(),
{
    if l.len() == 0 {
        None
    } else if tags_key(l[0].0) {
        Some(l[0].1)
    } else {
        first_key(l.drop_first())
    }
}

/// The views of a list of byte strings.
pub open spec fn byte_views(v: Seq<Vec<u8>>) -> Seq<Seq<u8>> {
    Seq::new(v.len(), |i: int| v[i]@)
}

/// The certificates among blocks, in order.
pub fn certificates_of(blocks: &Vec<(String, Vec<u8>)>) -> (r: Vec<Vec<u8>>)
    ensures
        byte_views(r@) == certificates(blocks_view(blocks@)),
{
    let ghost l = blocks_view(blocks@);
    let mut r: Vec<Vec<u8>> = Vec::new();
    let mut i: usize = 0;
    assert(l.take(0) =~= Seq::empty());
    assert(byte_views(r@) =~= Seq::empty());
    while i < blocks.len()
        invariant
            i <= blocks.len(),
            l == blocks_view(blocks@),
            byte_views(r@) == certificates(l.take(i as int)),
        decreases blocks.len() - i,
    {
        proof {
            assert(l.take(i + 1).drop_last() =~= l.take(i as int));
            assert(l.take(i + 1).last() == (blocks@[i as int].0@, blocks@[i as int].1@));
        }
        if text::eq_ignore_case(blocks[i].0.as_str(), "CERTIFICATE") {
            let ghost before = r@;
            let copy = copy_bytes(&blocks[i].1);
            r.push(copy);
            assert(byte_views(r@) =~= byte_views(before).push(copy@));
        }
        i = i + 1;
    }
    assert(l.take(l.len() as int) =~= l);
    r
}

fn copy_bytes(v: &Vec<u8>) -> (r: Vec<u8>)
    ensures
        r@ == v@,
{
    let mut r: Vec<u8> = Vec::new();
    let mut i: usize = 0;
    while i < v.len()
        invariant
            i <= v.len(),
            r@ =~= v@.take(i as int),
        decreases v.len() - i,
    {
        r.push(v[i]);
        i = i + 1;
    }
    assert(v@.take(v@.len() as int) =~= v@);
    r
}

/// The first key among blocks.
pub fn key_of(blocks: &Vec<(String, Vec<u8>)>) -> (r: Option<Vec<u8>>)
    ensures
        match first_key(blocks_view(blocks@)) {
            Some(k) => r matches Some(v) && v@ == k,
            None => r is None,
        },
{
    let ghost l = blocks_view(blocks@);
    let mut i: usize = 0;
    assert(l.skip(0) =~= l);
    while i < blocks.len()
        invariant
            i <= blocks.len(),
            l == blocks_view(blocks@),
            first_key(l) == first_key(l.skip(i as int)),
        decreases blocks.len() - i,
    {
        proof {
            assert(l.skip(i as int)[0] == (blocks@[i as int].0@, blocks@[i as int].1@));
            assert(l.skip(i as int).drop_first() =~= l.skip(i + 1));
        }
        let tag = blocks[i].0.as_str();
        if text::eq_ignore_case(tag, "PRIVATE KEY") || text::eq_ignore_case(
            tag,
            "PKCS8 PRIVATE KEY",
        ) {
            return Some(copy_bytes(&blocks[i].1));
        }
        i = i + 1;
    }
    None
}

/// The certificates in a PEM text; at least one must be there.
pub fn read_pem_certs(input: &[u8]) -> (r: Result<Vec<Vec<u8>>, PemError>)
    ensures
        match pem_parsed(input@) {
            Err(m) => r matches Err(e) && e@ == PemFault::Parse(m),
            Ok(l) => if certificates(l).len() == 0 {
                r matches Err(e) && e@ == PemFault::NoCertificate
            } else {
                r matches Ok(v) && byte_views(v@) == certificates(l)
            },
        },
{
    match parse_blocks(input) {
        Err(e) => Err(PemError::Parse(e)),
        Ok(blocks) => {
            let certs = certificates_of(&blocks);
            assert(byte_views(certs@).len() == certs@.len());
            if certs.len() == 0 {
                Err(PemError::NoCertificate)
            } else {
                Ok(certs)
            }
        },
    }
}

/// The first PKCS#8 key in a PEM text.
pub fn read_pem_key(input: &[u8]) -> (r: Result<Vec<u8>, PemError>)
    ensures
        match pem_parsed(input@) {
            Err(m) => r matches Err(e) && e@ == PemFault::Parse(m),
            Ok(l) => match first_key(l) {
                Some(k) => r matches Ok(v) && v@ == k,
                None => r matches Err(e) && e@ == PemFault::NoKey,
            },
        },
{
    match parse_blocks(input) {
        Err(e) => Err(PemError::Parse(e)),
        Ok(blocks) => match key_of(&blocks) {
            Some(k) => Ok(k),
            None => Err(PemError::NoKey),
        },
    }
}

} // verus!
