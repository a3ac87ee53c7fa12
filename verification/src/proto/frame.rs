//! The envelope of mesh messages.

use crate::proto::handshake::{Goodbye, PeerHello};
use crate::proto::sync::{Delete, SnapshotChunk, SnapshotRequest, Upsert};
use vstd::prelude::*;

verus! {

/// A mesh message.
#[derive(Debug, Clone, PartialEq, Eq)]
pub enum Frame {
    /// First message of each side.
    Hello(PeerHello),
    /// The sender closes on purpose.
    Goodbye(Goodbye),
    /// Ask for the rows newer than a time.
    SnapshotRequest(SnapshotRequest),
    /// One page of rows.
    SnapshotChunk(SnapshotChunk),
    /// A row that changed.
    Upsert(Upsert),
    /// A row that went.
    Delete(Delete),
}

} // verus!
