//! Length-prefixed framing of message payloads.
//!
//! A limit on the announced length bounds what a peer can make a receiver
//! allocate.

use crate::bytes;
use crate::text;
use vstd::prelude::*;

verus! {

/// Largest payload that is accepted: 1 MiB.
pub const DEFAULT_MAX_FRAME_BYTES: u32 = 1_048_576;

/// Errors of the codec.
#[derive(Debug, Clone, PartialEq, Eq)]
pub enum CodecError {
    /// The stream failed; its message.
    Io(String),
    /// The announced payload is larger than the limit.
    FrameTooLarge { announced: u32, limit: u32 },
    /// The payload could not be written; the encoder's message.
    Encode(String),
    /// The payload is no message; the decoder's message.
    Decode(String),
}

/// What a [`CodecError`] says.
pub enum CodecFault {
    Io(Seq<char>),
    FrameTooLarge { announced: u32, limit: u32 },
    Encode(Seq<char>),
    Decode(Seq<char>),
}

impl View for CodecError {
    type V = CodecFault;

    open spec fn view(&self) -> CodecFault {
        match *self {
            CodecError::Io(m) => CodecFault::Io(m@),
            CodecError::FrameTooLarge { announced, limit } => CodecFault::FrameTooLarge {
                announced,
                limit,
            },
            CodecError::Encode(m) => CodecFault::Encode(m@),
            CodecError::Decode(m) => CodecFault::Decode(m@),
        }
    }
}

impl CodecFault {
    /// The message of the error.
    pub open spec fn message(self) -> Seq<char> {
        match self {
            CodecFault::Io(m) => "io: "@ + m,
            CodecFault::FrameTooLarge { announced, limit } => "frame too large: "@ + text::decimal(
                announced as nat,
            ) + " bytes, limit "@ + text::decimal(limit as nat),
            CodecFault::Encode(m) => "encode: "@ + m,
            CodecFault::Decode(m) => "decode: "@ + m,
        }
    }
}

impl CodecError {
    /// The message of the error.
    pub fn to_string(&self) -> (s: String)
        ensures
            s@ == self@.message(),
    {
        match self {
            CodecError::Io(m) => text::concat("io: ", m.as_str()),
            CodecError::FrameTooLarge { announced, limit } => {
                let a = text::concat(
                    "frame too large: ",
                    text::decimal_string(*announced as u64).as_str(),
                );
                let b = text::concat(a.as_str(), " bytes, limit ");
                text::concat(b.as_str(), text::decimal_string(*limit as u64).as_str())
            },
            CodecError::Encode(m) => text::concat("encode: ", m.as_str()),
            CodecError::Decode(m) => text::concat("decode: ", m.as_str()),
        }
    }
}

/// A payload as it stands on the wire.
pub open spec fn framed(payload: Seq<u8>) -> Seq<u8> {
    bytes::be_bytes(payload.len(), 4) + payload
}

/// The length that a header announces.
pub open spec fn announced(header: Seq<u8>) -> nat {
    bytes::be_value(header)
}

/// The payload with its length before it. A payload whose length does not fit
/// in four bytes is too large.
pub fn write_frame(payload: &[u8]) -> (r: Result<Vec<u8>, CodecError>)
    ensures
        payload@.len() <= u32::MAX ==> (r matches Ok(b) && b@ == framed(payload@)),
        payload@.len() > u32::MAX ==> r == Err::<Vec<u8>, CodecError>(
            CodecError::FrameTooLarge { announced: u32::MAX, limit: u32::MAX },
        ),
{
    let n = payload.len();
    if n as u64 > u32::MAX as u64 {
        return Err(CodecError::FrameTooLarge { announced: u32::MAX, limit: u32::MAX });
    }
    let mut out: Vec<u8> = Vec::new();
    proof {
        bytes::limits();
    }
    bytes::push_be(&mut out, n as u64, 4);
    let mut i: usize = 0;
    while i < n
        invariant
            i <= n,
            n == payload@.len(),
            out@ =~= bytes::be_bytes(n as nat, 4) + payload@.take(i as int),
        decreases n - i,
    {
        out.push(payload[i]);
        i = i + 1;
    }
    assert(payload@.take(n as int) =~= payload@);
    Ok(out)
}

/// The payload length that a header announces, if it is within `limit`.
pub fn read_header(header: [u8; 4], limit: u32) -> (r: Result<u32, CodecError>)
    ensures
        match r {
            Ok(n) => n == announced(header@) && n <= limit,
            Err(CodecError::FrameTooLarge { announced: a, limit: l }) => a == announced(header@)
                && l == limit && a > limit,
            Err(_) => false,
        },
{
    let n = bytes::read_be(header.as_slice(), 0, 4);
    proof {
        assert(header@.subrange(0, 4) =~= header@);
        bytes::limits();
        bytes::bytes_of_value(header@);
    }
    let n = n as u32;
    if n > limit {
        return Err(CodecError::FrameTooLarge { announced: n, limit });
    }
    Ok(n)
}

/// A payload comes out of its frame as it went in: the first four bytes
/// announce its length, and the rest is the payload.
pub proof fn frame_round_trip(payload: Seq<u8>)
    requires
        payload.len() <= u32::MAX,
    ensures
        framed(payload).len() == 4 + payload.len(),
        announced(framed(payload).take(4)) == payload.len(),
        framed(payload).skip(4) == payload,
{
    bytes::limits();
    bytes::value_of_bytes(payload.len(), 4);
    assert(framed(payload).take(4) =~= bytes::be_bytes(payload.len(), 4));
    assert(framed(payload).skip(4) =~= payload);
}

} // verus!
