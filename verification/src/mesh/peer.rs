//! The identity that a peer's certificate gives it.

use crate::mesh::tls;
use crate::mesh::tls::cert_node_id;
use crate::text;
use vstd::prelude::*;

verus! {

/// Errors from accepting or dialing a peer.
#[derive(Debug, Clone, PartialEq, Eq)]
pub enum PeerError {
    /// The connection failed; its message.
    Io(String),
    /// The certificate names no node.
    PeerCertNoIdentity,
    /// There is no certificate.
    PeerCertMissing,
    /// The certificate names another node than the one dialed.
    NodeIdMismatch { expected: String, actual: String },
    /// The name to dial is no server name.
    InvalidServerName(String),
}

impl PeerError {
    /// The message of the error.
    pub fn to_string(&self) -> (s: String)
        ensures
            s@ == match *self {
                PeerError::Io(m) => "io: "@ + m@,
                PeerError::PeerCertNoIdentity => "peer cert had no usable Subject CN or SAN"@,
                PeerError::PeerCertMissing => "peer presented no client certificate"@,
                PeerError::NodeIdMismatch { expected, actual } => "expected peer node_id `"@
                    + expected@ + "` but cert advertised `"@ + actual@ + "`"@,
                PeerError::InvalidServerName(n) => "invalid server name `"@ + n@ + "`"@,
            },
    {
        match self {
            PeerError::Io(m) => text::concat("io: ", m.as_str()),
            PeerError::PeerCertNoIdentity => text::owned(
                "peer cert had no usable Subject CN or SAN",
            ),
            PeerError::PeerCertMissing => text::owned("peer presented no client certificate"),
            PeerError::NodeIdMismatch { expected, actual } => {
                let a = text::concat("expected peer node_id `", expected.as_str());
                let b = text::concat(a.as_str(), "` but cert advertised `");
                let c = text::concat(b.as_str(), actual.as_str());
                text::concat(c.as_str(), "`")
            },
            PeerError::InvalidServerName(n) => {
                let a = text::concat("invalid server name `", n.as_str());
                text::concat(a.as_str(), "`")
            },
        }
    }
}

/// What a peer's certificate shows.
#[derive(Debug, Clone, PartialEq, Eq)]
pub enum PeerCert {
    /// No certificate was presented.
    Missing,
    /// A certificate that names no node.
    Anonymous,
    /// A certificate for the node.
    Named(String),
}

/// What a peer's certificate, in DER form, shows.
pub fn peer_cert(leaf: Option<&[u8]>) -> (c: PeerCert)
    ensures
        match leaf {
            None => c is Missing,
            Some(der) => match tls::node_in(der@) {
                Some(n) => c matches PeerCert::Named(s) && s@ == n,
                None => c is Anonymous,
            },
        },
{
    match leaf {
        None => PeerCert::Missing,
        Some(der) => match cert_node_id(der) {
            Some(n) => PeerCert::Named(n),
            None => PeerCert::Anonymous,
        },
    }
}

/// The node at the other end. Where one was dialed, `expected` is its name, and
/// the certificate must be for it.
pub fn peer_identity(cert: PeerCert, expected: Option<&str>) -> (r: Result<String, PeerError>)
    ensures
        match cert {
            PeerCert::Missing => r == Err::<String, PeerError>(PeerError::PeerCertMissing),
            PeerCert::Anonymous => r == Err::<String, PeerError>(PeerError::PeerCertNoIdentity),
            PeerCert::Named(n) => match expected {
                Some(e) if e@ != n@ => r matches Err(
                    PeerError::NodeIdMismatch { expected: x, actual },
                ) && actual == n && x@ == e@,
                _ => r == Ok::<String, PeerError>(n),
            },
        },
{
    match cert {
        PeerCert::Missing => Err(PeerError::PeerCertMissing),
        PeerCert::Anonymous => Err(PeerError::PeerCertNoIdentity),
        PeerCert::Named(actual) => {
            if let Some(e) = expected {
                if !text::str_eq(actual.as_str(), e) {
                    return Err(PeerError::NodeIdMismatch { expected: text::owned(e), actual });
                }
            }
            Ok(actual)
        },
    }
}

} // verus!
