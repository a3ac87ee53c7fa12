//! Messages between the nodes of a mesh.
//!
//! A message on the wire is its length, four big-endian bytes, and then a
//! MessagePack payload. The length counts the payload only. Replicated rows
//! carry `(updated_at, origin_node)`; see [`crate::store::gossip`] for how
//! conflicts are resolved.

pub mod frame;
pub mod handshake;
pub mod sync;
