//! Messages exchanged right after the TLS handshake.

use crate::text;
use vstd::prelude::*;

verus! {

/// Wire-protocol version. Changes with any incompatible change of the messages.
pub const PROTO_VERSION: u32 = 1;

/// Optional features that a node advertises.
#[derive(Debug, Clone, Copy, PartialEq, Eq, Structural)]
pub struct PeerFeatures {
    /// The sender takes part in role distribution.
    pub roles: bool,
    /// The sender accepts cookie-op requests.
    pub cookie_ops: bool,
}

impl Default for PeerFeatures {
    /// No features.
    fn default() -> (f: Self)
        ensures
            !f.roles,
            !f.cookie_ops,
    {
        PeerFeatures { roles: false, cookie_ops: false }
    }
}

/// First message of each side. The receiver checks `node_id` against the peer's
/// certificate before anything else counts.
#[derive(Debug, Clone, PartialEq, Eq)]
pub struct PeerHello {
    /// Stable node identifier.
    pub node_id: String,
    /// The sender's [`PROTO_VERSION`].
    pub proto_version: u32,
    /// Advertised features.
    pub features: PeerFeatures,
    /// Sender's wall clock, Unix milliseconds.
    pub clock_ms: i64,
    /// IRC channels that the sender subscribes to; none means all.
    pub channels: Vec<String>,
}

/// What a [`PeerHello`] says.
pub struct HelloView {
    pub node_id: Seq<char>,
    pub proto_version: u32,
    pub features: PeerFeatures,
    pub clock_ms: i64,
    pub channels: Seq<Seq<char>>,
}

impl View for PeerHello {
    type V = HelloView;

    open spec fn view(&self) -> HelloView {
        HelloView {
            node_id: self.node_id@,
            proto_version: self.proto_version,
            features: self.features,
            clock_ms: self.clock_ms,
            channels: text::views(self.channels@),
        }
    }
}

/// Announcement that the sender closes on purpose.
#[derive(Debug, Clone, PartialEq, Eq)]
pub struct Goodbye {
    /// Free-form reason.
    pub reason: Option<String>,
}

} // verus!
