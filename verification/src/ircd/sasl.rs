//! SASL authentication encoding for IRCv3.
//!
//! - **PLAIN**: `authzid NUL username NUL password`, base64-encoded.
//! - **EXTERNAL**: the TLS client certificate says who we are; the payload is
//!   the optional authzid, or `+` if there is none.
//!
//! Payloads are sent in chunks of [`CHUNK_BYTES`] raw bytes.

use crate::encoding;
use crate::text;
use vstd::prelude::*;
use vstd::string::*;
use vstd::utf8;

verus! {

/// Raw payload bytes per `AUTHENTICATE` line.
pub const CHUNK_BYTES: usize = 400;

/// SASL mechanism and the data needed to compute its payload.
#[derive(Debug, Clone, PartialEq, Eq)]
pub enum SaslMechanism {
    /// `AUTHENTICATE PLAIN`.
    Plain {
        /// Authentication identity (usually empty).
        authzid: String,
        /// Username (account name).
        username: String,
        /// Cleartext password.
        password: String,
    },
    /// `AUTHENTICATE EXTERNAL`: uses the TLS client certificate.
    External {
        /// Optional authzid; empty means "use the certificate's identity".
        authzid: String,
    },
}

/// What a [`SaslMechanism`] holds.
pub enum SaslView {
    Plain { authzid: Seq<char>, username: Seq<char>, password: Seq<char> },
    External { authzid: Seq<char> },
}

impl View for SaslMechanism {
    type V = SaslView;

    open spec fn view(&self) -> SaslView {
        match *self {
            SaslMechanism::Plain { authzid, username, password } => SaslView::Plain {
                authzid: authzid@,
                username: username@,
                password: password@,
            },
            SaslMechanism::External { authzid } => SaslView::External { authzid: authzid@ },
        }
    }
}

impl SaslView {
    /// The mechanism's name on the wire.
    pub open spec fn name(self) -> Seq<char> {
        match self {
            SaslView::Plain { .. } => "PLAIN"@,
            SaslView::External { .. } => "EXTERNAL"@,
        }
    }

    /// The raw payload bytes.
    pub open spec fn payload(self) -> Seq<u8> {
        match self {
            SaslView::Plain { authzid, username, password } => utf8::encode_utf8(authzid)
                + seq![0u8] + utf8::encode_utf8(username) + seq![0u8] + utf8::encode_utf8(
                password,
            ),
            SaslView::External { authzid } => utf8::encode_utf8(authzid),
        }
    }

    /// The opening line, `AUTHENTICATE <mechanism>`.
    pub open spec fn start_line(self) -> Seq<char> {
        "AUTHENTICATE "@ + self.name()
    }
}

/// The lines that carry the payload `raw`: one line per chunk, and
/// `AUTHENTICATE +` where the payload is empty or its last chunk is full.
pub open spec fn payload_lines(raw: Seq<u8>) -> Seq<Seq<char>>
    decreases raw.len(),
{
    if raw.len() == 0 {
        seq!["AUTHENTICATE +"@]
    } else if raw.len() < CHUNK_BYTES {
        seq!["AUTHENTICATE "@ + encoding::base64_standard(raw)]
    } else {
        seq![
            "AUTHENTICATE "@ + encoding::base64_standard(raw.take(CHUNK_BYTES as int)),
        ] + payload_lines(raw.skip(CHUNK_BYTES as int))
    }
}

impl SaslMechanism {
    /// The mechanism's name on the wire.
    #[must_use]
    pub fn name(&self) -> (s: &'static str)
        ensures
            s@ == self@.name(),
    {
        match self {
            SaslMechanism::Plain { .. } => "PLAIN",
            SaslMechanism::External { .. } => "EXTERNAL",
        }
    }

    /// The raw payload bytes, before base64.
    #[must_use]
    pub fn raw_payload(&self) -> (v: Vec<u8>)
        ensures
            v@ == self@.payload(),
    {
        match self {
            SaslMechanism::Plain { authzid, username, password } => {
                let mut buf = authzid.as_str().as_bytes_vec();
                buf.push(0);
                append_bytes(&mut buf, username.as_str());
                buf.push(0);
                append_bytes(&mut buf, password.as_str());
                assert(buf@ =~= self@.payload());
                buf
            },
            SaslMechanism::External { authzid } => authzid.as_str().as_bytes_vec(),
        }
    }
}

/// Append the UTF-8 bytes of `s`.
fn append_bytes(buf: &mut Vec<u8>, s: &str)
    ensures
        final(buf)@ == old(buf)@ + utf8::encode_utf8(s@),
{
    let mut bytes = s.as_bytes_vec();
    buf.append(&mut bytes);
}

/// The `AUTHENTICATE <mechanism>` opening line.
#[must_use]
pub fn authenticate_start(mech: &SaslMechanism) -> (s: String)
    ensures
        s@ == mech@.start_line(),
{
    let mut s = text::owned("AUTHENTICATE ");
    s.append(mech.name());
    s
}

/// The `AUTHENTICATE` lines that carry the payload `raw`.
pub fn authenticate_chunks(raw: &Vec<u8>) -> (lines: Vec<String>)
    ensures
        text::views(lines@) == payload_lines(raw@),
{
    let mut lines: Vec<String> = Vec::new();
    let mut start: usize = 0;
    assert(raw@.skip(0) =~= raw@);
    assert(text::views(lines@) + payload_lines(raw@) =~= payload_lines(raw@));
    while raw.len() - start >= CHUNK_BYTES
        invariant
            start <= raw.len(),
            text::views(lines@) + payload_lines(raw@.skip(start as int)) == payload_lines(raw@),
        decreases raw.len() - start,
    {
        let ghost before = text::views(lines@);
        let ghost rest = raw@.skip(start as int);
        let line = chunk_line(raw, start, start + CHUNK_BYTES);
        let ghost l = line@;
        lines.push(line);
        proof {
            assert(text::views(lines@) =~= before.push(l));
            assert(raw@.subrange(start as int, start + CHUNK_BYTES) =~= rest.take(
                CHUNK_BYTES as int,
            ));
            assert(rest.skip(CHUNK_BYTES as int) =~= raw@.skip(start + CHUNK_BYTES));
            assert(text::views(lines@) + payload_lines(raw@.skip(start + CHUNK_BYTES)) =~= before
                + payload_lines(rest));
        }
        start = start + CHUNK_BYTES;
    }
    let ghost before = text::views(lines@);
    let ghost rest = raw@.skip(start as int);
    let line = if start == raw.len() {
        text::owned("AUTHENTICATE +")
    } else {
        chunk_line(raw, start, raw.len())
    };
    let ghost l = line@;
    lines.push(line);
    proof {
        assert(text::views(lines@) =~= before.push(l));
        assert(raw@.subrange(start as int, raw@.len() as int) =~= rest);
        assert(text::views(lines@) =~= before + payload_lines(rest));
    }
    lines
}

/// The line that carries the bytes `raw[from..to]`.
fn chunk_line(raw: &Vec<u8>, from: usize, to: usize) -> (s: String)
    requires
        from <= to <= raw@.len(),
        to - from <= CHUNK_BYTES,
    ensures
        s@ == "AUTHENTICATE "@ + encoding::base64_standard(
            raw@.subrange(from as int, to as int),
        ),
{
    let chunk = vstd::slice::slice_subrange(raw.as_slice(), from, to);
    let mut s = text::owned("AUTHENTICATE ");
    s.append(encoding::encode_standard(chunk).as_str());
    s
}

/// The `AUTHENTICATE` lines that carry the mechanism's payload. Each line
/// encodes at most [`CHUNK_BYTES`] raw bytes; an `AUTHENTICATE +` ends a payload
/// whose last chunk is full, and stands for an empty payload.
#[must_use]
pub fn sasl_authenticate_lines(mech: &SaslMechanism) -> (lines: Vec<String>)
    ensures
        text::views(lines@) == payload_lines(mech@.payload()),
{
    authenticate_chunks(&mech.raw_payload())
}

/// The last line of a payload is never that of a full chunk, so the server
/// always knows where the payload ends; there is one line more than full chunks.
pub proof fn payload_line_count(raw: Seq<u8>)
    ensures
        payload_lines(raw).len() == raw.len() / CHUNK_BYTES as nat + 1,
        raw.len() % CHUNK_BYTES as nat == 0 ==> payload_lines(raw).last() == "AUTHENTICATE +"@,
    decreases raw.len(),
{
    if raw.len() >= CHUNK_BYTES {
        let rest = raw.skip(CHUNK_BYTES as int);
        payload_line_count(rest);
        let head = seq!["AUTHENTICATE "@ + encoding::base64_standard(raw.take(CHUNK_BYTES as int))];
        assert(payload_lines(raw) =~= head + payload_lines(rest));
        assert(payload_lines(raw).last() == payload_lines(rest).last());
    }
}

/// The pieces in which a payload is sent.
pub open spec fn payload_chunks(raw: Seq<u8>) -> Seq<Seq<u8>>
    decreases raw.len(),
{
    if raw.len() < CHUNK_BYTES {
        seq![raw]
    } else {
        seq![raw.take(CHUNK_BYTES as int)] + payload_chunks(raw.skip(CHUNK_BYTES as int))
    }
}

/// Pieces, put together again.
pub open spec fn joined(chunks: Seq<Seq<u8>>) -> Seq<u8>
    decreases chunks.len(),
{
    if chunks.len() == 0 {
        Seq::empty()
    } else {
        chunks[0] + joined(chunks.drop_first())
    }
}

/// The line that carries one piece.
pub open spec fn chunk_text(chunk: Seq<u8>) -> Seq<char> {
    if chunk.len() == 0 {
        "AUTHENTICATE +"@
    } else {
        "AUTHENTICATE "@ + encoding::base64_standard(chunk)
    }
}

/// The lines carry the payload whole: one piece each, none longer than
/// [`CHUNK_BYTES`], and the pieces put together are the payload.
pub proof fn lines_carry_the_payload(raw: Seq<u8>)
    ensures
        payload_lines(raw).len() == payload_chunks(raw).len(),
        forall|i: int|
            0 <= i < payload_chunks(raw).len() ==> {
                &&& (#[trigger] payload_chunks(raw)[i]).len() <= CHUNK_BYTES
                &&& payload_lines(raw)[i] == chunk_text(payload_chunks(raw)[i])
            },
        joined(payload_chunks(raw)) == raw,
    decreases raw.len(),
{
    if raw.len() < CHUNK_BYTES {
        assert(payload_chunks(raw).drop_first() =~= Seq::empty());
        assert(joined(payload_chunks(raw).drop_first()) =~= Seq::empty());
        assert(joined(payload_chunks(raw)) =~= raw);
    } else {
        let head = raw.take(CHUNK_BYTES as int);
        let rest = raw.skip(CHUNK_BYTES as int);
        lines_carry_the_payload(rest);
        let chunks = payload_chunks(raw);
        assert(chunks =~= seq![head] + payload_chunks(rest));
        assert(chunks.drop_first() =~= payload_chunks(rest));
        assert(joined(chunks) =~= raw);
        assert(payload_lines(raw) =~= seq![chunk_text(head)] + payload_lines(rest));
        assert forall|i: int| 0 <= i < chunks.len() implies {
            &&& (#[trigger] chunks[i]).len() <= CHUNK_BYTES
            &&& payload_lines(raw)[i] == chunk_text(chunks[i])
        } by {
            if i > 0 {
                assert(chunks[i] == payload_chunks(rest)[i - 1]);
            }
        }
    }
}

} // verus!
