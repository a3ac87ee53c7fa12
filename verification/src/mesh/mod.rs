//! What a node decides about its peers: whom to trust, what to send, and when to
//! call again.

pub mod codec;
pub mod handshake;
pub mod hub;
pub mod laws;
pub mod peer;
pub mod peer_loop;
pub mod tls;
