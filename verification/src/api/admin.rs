//! Health probes.

use vstd::prelude::*;

verus! {

/// Which subsystems are up. The node serves traffic when all are.
#[derive(Debug, PartialEq, Eq, Structural)]
pub struct ReadinessProbes {
    irc_connected: bool,
    peers_up: bool,
    store_open: bool,
}

/// What [`ReadinessProbes`] say.
pub struct ProbesView {
    pub irc_connected: bool,
    pub peers_up: bool,
    pub store_open: bool,
}

impl View for ReadinessProbes {
    type V = ProbesView;

    closed spec fn view(&self) -> ProbesView {
        ProbesView {
            irc_connected: self.irc_connected,
            peers_up: self.peers_up,
            store_open: self.store_open,
        }
    }
}

impl ProbesView {
    /// Whether all subsystems are up.
    pub open spec fn ready(self) -> bool {
        self.irc_connected && self.peers_up && self.store_open
    }
}

impl Default for ReadinessProbes {
    /// Nothing is up yet.
    fn default() -> (p: Self)
        ensures
            p@ == (ProbesView { irc_connected: false, peers_up: false, store_open: false }),
    {
        ReadinessProbes { irc_connected: false, peers_up: false, store_open: false }
    }
}

impl ReadinessProbes {
    /// Nothing is up yet.
    #[must_use]
    pub fn new() -> (p: Self)
        ensures
            p@ == (ProbesView { irc_connected: false, peers_up: false, store_open: false }),
    {
        ReadinessProbes::default()
    }

    /// Whether the IRC session is registered.
    #[must_use]
    pub fn irc_connected(&self) -> (b: bool)
        ensures
            b == self@.irc_connected,
    {
        self.irc_connected
    }

    /// Whether a mesh peer is connected.
    #[must_use]
    pub fn peers_up(&self) -> (b: bool)
        ensures
            b == self@.peers_up,
    {
        self.peers_up
    }

    /// Whether the store is open.
    #[must_use]
    pub fn store_open(&self) -> (b: bool)
        ensures
            b == self@.store_open,
    {
        self.store_open
    }

    /// Record whether the IRC session is registered.
    pub fn set_irc_connected(&mut self, value: bool)
        ensures
            final(self)@ == (ProbesView { irc_connected: value, ..old(self)@ }),
    {
        self.irc_connected = value;
    }

    /// Record whether a mesh peer is connected.
    pub fn set_peers_up(&mut self, value: bool)
        ensures
            final(self)@ == (ProbesView { peers_up: value, ..old(self)@ }),
    {
        self.peers_up = value;
    }

    /// Record whether the store is open.
    pub fn set_store_open(&mut self, value: bool)
        ensures
            final(self)@ == (ProbesView { store_open: value, ..old(self)@ }),
    {
        self.store_open = value;
    }
}

/// The answer to a readiness probe.
#[derive(Debug, Clone, Copy, PartialEq, Eq, Structural)]
pub struct ReadyBody {
    pub ok: bool,
    pub irc_connected: bool,
    pub peers_up: bool,
    pub store_open: bool,
}

/// The answer to a liveness probe: status and whether the node is well.
pub fn healthz() -> (r: (u16, bool))
    ensures
        r == (200u16, true),
{
    (200, true)
}

/// The answer to a readiness probe: status 200 if all subsystems are up, else
/// 503, and which of them are.
pub fn readyz(probes: &ReadinessProbes) -> (r: (u16, ReadyBody))
    ensures
        r.0 == (if probes@.ready() {
            200u16
        } else {
            503u16
        }),
        r.1 == (ReadyBody {
            ok: probes@.ready(),
            irc_connected: probes@.irc_connected,
            peers_up: probes@.peers_up,
            store_open: probes@.store_open,
        }),
{
    let irc_connected = probes.irc_connected();
    let peers_up = probes.peers_up();
    let store_open = probes.store_open();
    let ok = irc_connected && peers_up && store_open;
    let status: u16 = if ok { 200 } else { 503 };
    (status, ReadyBody { ok, irc_connected, peers_up, store_open })
}

} // verus!
