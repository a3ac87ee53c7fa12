//! The registry of connected peers, and when to call a peer again.

use crate::order;
use crate::text_set::TextSet;
use vstd::prelude::*;

verus! {

/// Pause before the first new attempt to dial a peer, in milliseconds.
pub const INITIAL_BACKOFF_MS: u64 = 500;

/// Longest pause between attempts, in milliseconds.
pub const MAX_BACKOFF_MS: u64 = 30_000;

/// The pause after a pause of `current`: twice as long, up to `max`.
pub open spec fn backoff_after(current: int, max: int) -> int {
    if current * 2 <= max {
        current * 2
    } else {
        max
    }
}

/// The pause after a pause of `current_ms`: twice as long, up to `max_ms`.
pub fn doubled_backoff(current_ms: u64, max_ms: u64) -> (n: u64)
    ensures
        n == backoff_after(current_ms as int, max_ms as int),
{
    if current_ms <= max_ms / 2 {
        current_ms * 2
    } else {
        max_ms
    }
}

/// The pause after `n` failed attempts in a row.
pub open spec fn backoff_at(n: nat) -> int
    decreases n,
{
    if n == 0 {
        INITIAL_BACKOFF_MS as int
    } else {
        backoff_after(backoff_at((n - 1) as nat), MAX_BACKOFF_MS as int)
    }
}

/// Pauses grow and stay within bounds.
pub proof fn backoff_grows_then_caps(n: nat)
    ensures
        INITIAL_BACKOFF_MS <= backoff_at(n) <= MAX_BACKOFF_MS,
        backoff_at(n) <= backoff_at(n + 1),
        n >= 6 ==> backoff_at(n) == MAX_BACKOFF_MS,
    decreases n,
{
    if n > 0 {
        backoff_grows_then_caps((n - 1) as nat);
    }
    if n == 6 {
        reveal_with_fuel(backoff_at, 7);
    }
}

/// The peers of a node.
#[derive(Debug)]
pub struct Registry {
    /// Names of the peers that frames are sent to.
    peers: TextSet,
    /// Number of open connections.
    count: usize,
    /// Whether the node reports its mesh as up.
    up: bool,
}

/// What a [`Registry`] holds.
pub struct RegistryView {
    pub peers: Set<Seq<char>>,
    pub connections: nat,
    pub up: bool,
}

impl View for Registry {
    type V = RegistryView;

    closed spec fn view(&self) -> RegistryView {
        RegistryView { peers: self.peers@, connections: self.count as nat, up: self.up }
    }
}

impl RegistryView {
    /// The mesh is up exactly while a connection is open.
    pub open spec fn consistent(self) -> bool {
        self.up <==> self.connections > 0
    }
}

impl Registry {
    #[verifier::type_invariant]
    spec fn consistent(self) -> bool {
        self@.consistent()
    }

    /// No peers.
    pub fn new() -> (r: Self)
        ensures
            r@ == (RegistryView { peers: Set::empty(), connections: 0, up: false }),
            r@.consistent(),
    {
        Registry { peers: TextSet::new(), count: 0, up: false }
    }

    /// A peer connected.
    pub fn connected(&mut self, node_id: String)
        requires
            old(self)@.connections < usize::MAX,
        ensures
            final(self)@ == (RegistryView {
                peers: old(self)@.peers.insert(node_id@),
                connections: old(self)@.connections + 1,
                up: true,
            }),
            final(self)@.consistent(),
    {
        proof {
            use_type_invariant(&*self);
        }
        let mut peers = TextSet::new();
        std::mem::swap(&mut peers, &mut self.peers);
        peers.insert(node_id);
        *self = Registry { peers, count: self.count + 1, up: true };
    }

    /// A connection to a peer ended.
    pub fn disconnected(&mut self, node_id: &str)
        requires
            old(self)@.connections > 0,
        ensures
            final(self)@ == (RegistryView {
                peers: old(self)@.peers.remove(node_id@),
                connections: (old(self)@.connections - 1) as nat,
                up: old(self)@.connections > 1,
            }),
            final(self)@.consistent(),
    {
        proof {
            use_type_invariant(&*self);
        }
        let mut peers = TextSet::new();
        std::mem::swap(&mut peers, &mut self.peers);
        peers.remove(node_id);
        let count = self.count - 1;
        *self = Registry { peers, count, up: count > 0 };
    }

    /// Whether at least one connection is open.
    pub fn peers_up(&self) -> (b: bool)
        ensures
            b == self@.up,
            self@.consistent(),
    {
        proof {
            use_type_invariant(self);
        }
        self.up
    }

    /// Number of open connections.
    pub fn connections(&self) -> (n: usize)
        ensures
            n == self@.connections,
    {
        self.count
    }

    /// The names of the connected peers, in order.
    pub fn peer_node_ids(&self) -> (v: Vec<String>)
        ensures
            crate::text::views(v@) == order::listing(self@.peers),
            self@.peers.finite(),
    {
        self.peers.to_vec()
    }
}

} // verus!
