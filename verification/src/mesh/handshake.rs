//! The exchange of hellos.
//!
//! The first message of a peer must be a hello, of the same protocol version,
//! and name the node that the peer's certificate names: a peer with a valid
//! certificate cannot pass for another node.

use crate::mesh::codec::{CodecError, CodecFault};
use crate::model::time;
use crate::model::time::now_ms;
use crate::proto::frame::Frame;
use crate::proto::handshake::{HelloView, PeerFeatures, PeerHello, PROTO_VERSION};
use crate::text;
use vstd::prelude::*;

verus! {

/// Errors of the handshake.
#[derive(Debug, Clone, PartialEq, Eq)]
pub enum HandshakeError {
    /// The message could not be read or written.
    Codec(CodecError),
    /// The stream ended before a message came.
    PeerClosed,
    /// The first message was no hello.
    UnexpectedFrame,
    /// Another protocol version.
    VersionMismatch { ours: u32, theirs: u32 },
    /// The hello names another node than the certificate.
    IdentityBindingMismatch { claimed: String, cert_node_id: String },
}

/// What a [`HandshakeError`] says.
pub enum HandshakeFault {
    Codec(CodecFault),
    PeerClosed,
    UnexpectedFrame,
    VersionMismatch { ours: u32, theirs: u32 },
    IdentityBindingMismatch { claimed: Seq<char>, cert_node_id: Seq<char> },
}

impl View for HandshakeError {
    type V = HandshakeFault;

    open spec fn view(&self) -> HandshakeFault {
        match *self {
            HandshakeError::Codec(e) => HandshakeFault::Codec(e@),
            HandshakeError::PeerClosed => HandshakeFault::PeerClosed,
            HandshakeError::UnexpectedFrame => HandshakeFault::UnexpectedFrame,
            HandshakeError::VersionMismatch { ours, theirs } => HandshakeFault::VersionMismatch {
                ours,
                theirs,
            },
            HandshakeError::IdentityBindingMismatch { claimed, cert_node_id } => {
                HandshakeFault::IdentityBindingMismatch {
                    claimed: claimed@,
                    cert_node_id: cert_node_id@,
                }
            },
        }
    }
}

impl HandshakeError {
    /// The message of the error.
    pub fn to_string(&self) -> (s: String)
        ensures
            s@ == match self@ {
                HandshakeFault::Codec(e) => e.message(),
                HandshakeFault::PeerClosed => "connection closed before peer sent Hello"@,
                HandshakeFault::UnexpectedFrame => "first frame from peer was not Hello"@,
                HandshakeFault::VersionMismatch { ours, theirs } => "proto version mismatch: ours = "@
                    + text::decimal(ours as nat) + ", theirs = "@ + text::decimal(theirs as nat),
                HandshakeFault::IdentityBindingMismatch { claimed, cert_node_id } =>
                    "PeerHello.node_id `"@ + claimed + "` does not match certificate identity `"@
                    + cert_node_id + "`"@,
            },
    {
        match self {
            HandshakeError::Codec(e) => e.to_string(),
            HandshakeError::PeerClosed => text::owned("connection closed before peer sent Hello"),
            HandshakeError::UnexpectedFrame => text::owned("first frame from peer was not Hello"),
            HandshakeError::VersionMismatch { ours, theirs } => {
                let a = text::concat(
                    "proto version mismatch: ours = ",
                    text::decimal_string(*ours as u64).as_str(),
                );
                let b = text::concat(a.as_str(), ", theirs = ");
                text::concat(b.as_str(), text::decimal_string(*theirs as u64).as_str())
            },
            HandshakeError::IdentityBindingMismatch { claimed, cert_node_id } => {
                let a = text::concat("PeerHello.node_id `", claimed.as_str());
                let b = text::concat(a.as_str(), "` does not match certificate identity `");
                let c = text::concat(b.as_str(), cert_node_id.as_str());
                text::concat(c.as_str(), "`")
            },
        }
    }
}

/// What is wrong with a hello from the holder of a certificate for
/// `cert_node_id`; the version is looked at first.
pub open spec fn hello_fault(h: HelloView, cert_node_id: Seq<char>) -> Option<HandshakeFault> {
    if h.proto_version != PROTO_VERSION {
        Some(HandshakeFault::VersionMismatch { ours: PROTO_VERSION, theirs: h.proto_version })
    } else if h.node_id != cert_node_id {
        Some(HandshakeFault::IdentityBindingMismatch { claimed: h.node_id, cert_node_id })
    } else {
        None
    }
}

/// Judge the first message of a peer whose certificate names `cert_node_id`.
/// `None` is a stream that ended.
pub fn run_handshake(first: Option<Frame>, cert_node_id: &str) -> (r: Result<
    PeerHello,
    HandshakeError,
>)
    ensures
        match first {
            None => r matches Err(e) && e@ == HandshakeFault::PeerClosed,
            Some(Frame::Hello(h)) => match hello_fault(h@, cert_node_id@) {
                None => r == Ok::<PeerHello, HandshakeError>(h),
                Some(f) => r matches Err(e) && e@ == f,
            },
            Some(_) => r matches Err(e) && e@ == HandshakeFault::UnexpectedFrame,
        },
{
    match first {
        None => Err(HandshakeError::PeerClosed),
        Some(Frame::Hello(theirs)) => {
            if theirs.proto_version != PROTO_VERSION {
                return Err(
                    HandshakeError::VersionMismatch {
                        ours: PROTO_VERSION,
                        theirs: theirs.proto_version,
                    },
                );
            }
            if !text::str_eq(theirs.node_id.as_str(), cert_node_id) {
                return Err(
                    HandshakeError::IdentityBindingMismatch {
                        claimed: theirs.node_id,
                        cert_node_id: text::owned(cert_node_id),
                    },
                );
            }
            Ok(theirs)
        },
        Some(_) => Err(HandshakeError::UnexpectedFrame),
    }
}

/// The hello that a node sends at `clock_ms`.
pub open spec fn hello_of(node_id: Seq<char>, channels: Seq<Seq<char>>, clock_ms: i64) -> HelloView {
    HelloView {
        node_id,
        proto_version: PROTO_VERSION,
        features: PeerFeatures { roles: false, cookie_ops: false },
        clock_ms,
        channels,
    }
}

/// The hello that a node sends now.
pub fn make_hello(node_id: &str, channels: &Vec<String>) -> (h: PeerHello)
    ensures
        time::is_reading(h.clock_ms),
        h.clock_ms >= 0,
        h@ == hello_of(node_id@, text::views(channels@), h.clock_ms),
{
    hello_at(node_id, channels, now_ms())
}

/// The hello that a node sends at `clock_ms`.
pub fn hello_at(node_id: &str, channels: &Vec<String>, clock_ms: i64) -> (h: PeerHello)
    ensures
        h@ == hello_of(node_id@, text::views(channels@), clock_ms),
{
    PeerHello {
        node_id: text::owned(node_id),
        proto_version: PROTO_VERSION,
        features: PeerFeatures::default(),
        clock_ms,
        channels: text::copy_list(channels),
    }
}

// ----- laws ------------------------------------------------------------------

/// Two nodes of this protocol accept each other's hellos, each under the name
/// in its certificate.
pub proof fn honest_hello_is_accepted(node_id: Seq<char>, channels: Seq<Seq<char>>, clock_ms: i64)
    ensures
        hello_fault(hello_of(node_id, channels, clock_ms), node_id) is None,
{
}

/// A hello that is accepted carries the name in the certificate.
pub proof fn accepted_hello_is_bound(h: HelloView, cert_node_id: Seq<char>)
    requires
        hello_fault(h, cert_node_id) is None,
    ensures
        h.node_id == cert_node_id,
        h.proto_version == PROTO_VERSION,
{
}

} // verus!
