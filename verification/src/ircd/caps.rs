//! IRCv3 capability negotiation state machine.
//!
//! Handles the CAP LS / CAP REQ / CAP ACK / CAP NAK exchange. The machine is
//! pure: it consumes parsed messages and hands back the [`CapAction`]s that the
//! session turns into writes.
//!
//! 1. After connecting, send [`CapNegotiation::initial_command`].
//! 2. Feed every parsed message into [`CapNegotiation::handle`] and perform the
//!    actions it returns.
//! 3. [`CapAction::Done`] ends the negotiation: send `CAP END`, or begin SASL
//!    first if `sasl` is among the acked capabilities.

use crate::ircd::message::{CommandView, Message, MessageView};
use crate::order;
use crate::text;
use crate::text_set;
use crate::text_set::TextSet;
use vstd::prelude::*;
use vstd::string::*;

verus! {

/// How far a negotiation has come.
#[derive(Debug, Clone, Copy, PartialEq, Eq, Structural)]
pub enum Phase {
    /// Waiting for `CAP * LS`, or for more lines of it.
    AwaitingLs,
    /// Sent `CAP REQ`, waiting for ACKs and NAKs covering the requested set.
    AwaitingAck,
    /// Negotiation complete; further CAP messages are ignored.
    Done,
}

/// One side of a CAP negotiation, tracking what we asked for and what the
/// server agreed to.
#[derive(Debug, PartialEq, Eq)]
pub struct CapNegotiation {
    desired: TextSet,
    available: TextSet,
    acked: TextSet,
    requested: TextSet,
    phase: Phase,
}

/// The state of a negotiation.
pub struct CapView {
    pub desired: Set<Seq<char>>,
    pub available: Set<Seq<char>>,
    pub acked: Set<Seq<char>>,
    pub requested: Set<Seq<char>>,
    pub phase: Phase,
}

impl View for CapNegotiation {
    type V = CapView;

    closed spec fn view(&self) -> CapView {
        CapView {
            desired: self.desired@,
            available: self.available@,
            acked: self.acked@,
            requested: self.requested@,
            phase: self.phase,
        }
    }
}

impl Clone for CapNegotiation {
    fn clone(&self) -> (r: Self)
        ensures
            r@ == self@,
    {
        CapNegotiation {
            desired: self.desired.clone(),
            available: self.available.clone(),
            acked: self.acked.clone(),
            requested: self.requested.clone(),
            phase: self.phase,
        }
    }
}

/// One action the caller should perform in response to a parsed message.
#[derive(Debug, PartialEq, Eq)]
pub enum CapAction {
    /// Write this line to the server (without CRLF).
    Send(String),
    /// Server acked these capabilities; record them as enabled.
    Acked(TextSet),
    /// Server NAK'd these capabilities; they're not enabled.
    Nakked(TextSet),
    /// Negotiation is finished.
    Done,
}

/// What a [`CapAction`] asks for.
pub enum CapActionView {
    Send(Seq<char>),
    Acked(Set<Seq<char>>),
    Nakked(Set<Seq<char>>),
    Done,
}

impl View for CapAction {
    type V = CapActionView;

    open spec fn view(&self) -> CapActionView {
        match *self {
            CapAction::Send(line) => CapActionView::Send(line@),
            CapAction::Acked(caps) => CapActionView::Acked(caps@),
            CapAction::Nakked(caps) => CapActionView::Nakked(caps@),
            CapAction::Done => CapActionView::Done,
        }
    }
}

impl Clone for CapAction {
    fn clone(&self) -> (r: Self)
        ensures
            r@ == self@,
    {
        match self {
            CapAction::Send(line) => CapAction::Send(line.clone()),
            CapAction::Acked(caps) => CapAction::Acked(caps.clone()),
            CapAction::Nakked(caps) => CapAction::Nakked(caps.clone()),
            CapAction::Done => CapAction::Done,
        }
    }
}

/// The views of a list of actions.
pub open spec fn action_views(v: Seq<CapAction>) -> Seq<CapActionView> {
    Seq::new(v.len(), |i: int| v[i]@)
}

// ----- what a message does ---------------------------------------------------

/// A negotiation state and the actions that led to it.
pub type CapOutcome = (CapView, Seq<CapActionView>);

/// The name of an advertised capability: what stands before its `=value`.
pub open spec fn cap_name(entry: Seq<char>) -> Seq<char> {
    match text::split_once_at(entry, '=') {
        Some((name, _)) => name,
        None => entry,
    }
}

/// The names of a list of advertised capabilities.
pub open spec fn cap_names(entries: Seq<Seq<char>>) -> Seq<Seq<char>> {
    Seq::new(entries.len(), |i: int| cap_name(entries[i]))
}

/// The line that requests `caps`, in order.
pub open spec fn request_line(caps: Set<Seq<char>>) -> Seq<char> {
    "CAP REQ :"@ + text::joined(order::listing(caps))
}

/// `CAP * LS [*] :cap1 cap2=value cap3`. A `*` says that more lines follow.
/// After the last line we request what we desire and the server has.
pub open spec fn on_ls(s: CapView, m: MessageView) -> CapOutcome {
    let multiline = m.param(2) == Some("*"@);
    match m.param(if multiline { 3 } else { 2 }) {
        None => (s, Seq::empty()),
        Some(field) => {
            let available = s.available.union(cap_names(text::words(field)).to_set());
            let wanted = s.desired.intersect(available);
            if multiline {
                (CapView { available, ..s }, Seq::empty())
            } else if wanted == Set::<Seq<char>>::empty() {
                (
                    CapView { available, phase: Phase::Done, ..s },
                    seq![CapActionView::Done],
                )
            } else {
                (
                    CapView { available, requested: wanted, phase: Phase::AwaitingAck, ..s },
                    seq![CapActionView::Send(request_line(wanted))],
                )
            }
        },
    }
}

/// A state in which `answered` is no longer waited for, and the actions that
/// follow `first`: the negotiation is done when nothing is waited for.
pub open spec fn after_answer(
    s: CapView,
    answered: Set<Seq<char>>,
    first: CapActionView,
) -> CapOutcome {
    let requested = s.requested.difference(answered);
    if requested == Set::<Seq<char>>::empty() {
        (CapView { requested, phase: Phase::Done, ..s }, seq![first, CapActionView::Done])
    } else {
        (CapView { requested, ..s }, seq![first])
    }
}

/// `CAP * ACK :cap1 cap2`.
pub open spec fn on_ack(s: CapView, m: MessageView) -> CapOutcome {
    match m.param(2) {
        None => (s, Seq::empty()),
        Some(field) => {
            let caps = text::words(field).to_set();
            after_answer(
                CapView { acked: s.acked.union(caps), ..s },
                caps,
                CapActionView::Acked(caps),
            )
        },
    }
}

/// `CAP * NAK :cap1 cap2`.
pub open spec fn on_nak(s: CapView, m: MessageView) -> CapOutcome {
    match m.param(2) {
        None => (s, Seq::empty()),
        Some(field) => {
            let caps = text::words(field).to_set();
            after_answer(s, caps, CapActionView::Nakked(caps))
        },
    }
}

/// Whether the message is CAP with the subcommand `sub`.
pub open spec fn is_subcommand(m: MessageView, sub: Seq<char>) -> bool {
    m.is_command("CAP"@) && m.params.len() > 1 && text::lower(m.params[1]) == text::lower(sub)
}

/// What one message does to a negotiation. Numeric 410 (invalid CAP command)
/// aborts it; messages that are not listed here, or that come in another
/// phase, do nothing.
pub open spec fn negotiate(s: CapView, m: MessageView) -> CapOutcome {
    if m.command == CommandView::Numeric(410) && s.phase != Phase::Done {
        (CapView { phase: Phase::Done, ..s }, seq![CapActionView::Done])
    } else if s.phase == Phase::AwaitingLs && is_subcommand(m, "LS"@) {
        on_ls(s, m)
    } else if s.phase == Phase::AwaitingAck && is_subcommand(m, "ACK"@) {
        on_ack(s, m)
    } else if s.phase == Phase::AwaitingAck && is_subcommand(m, "NAK"@) {
        on_nak(s, m)
    } else {
        (s, Seq::empty())
    }
}

impl CapView {
    /// Whether there are only so many capabilities.
    pub open spec fn is_finite(self) -> bool {
        self.desired.finite() && self.available.finite() && self.acked.finite()
            && self.requested.finite()
    }
}

impl CapNegotiation {
    /// A negotiation that will request the intersection of `desired` with
    /// whatever the server advertises in `CAP LS`.
    #[must_use]
    pub fn new(desired: Vec<String>) -> (n: Self)
        ensures
            n@ == (CapView {
                desired: text::views(desired@).to_set(),
                available: Set::empty(),
                acked: Set::empty(),
                requested: Set::empty(),
                phase: Phase::AwaitingLs,
            }),
            n@.is_finite(),
    {
        proof {
            vstd::seq_lib::seq_to_set_is_finite(text::views(desired@));
        }
        CapNegotiation {
            desired: TextSet::from_slice(desired.as_slice()),
            available: TextSet::new(),
            acked: TextSet::new(),
            requested: TextSet::new(),
            phase: Phase::AwaitingLs,
        }
    }

    /// First line to write after connecting.
    #[must_use]
    pub fn initial_command() -> (s: &'static str)
        ensures
            s@ == "CAP LS 302"@,
    {
        "CAP LS 302"
    }

    /// Caps the server advertised in `CAP LS`.
    #[must_use]
    pub fn available_caps(&self) -> (s: &TextSet)
        ensures
            s@ == self@.available,
    {
        &self.available
    }

    /// Caps the server acked after our `CAP REQ`.
    #[must_use]
    pub fn acked_caps(&self) -> (s: &TextSet)
        ensures
            s@ == self@.acked,
    {
        &self.acked
    }

    /// Whether `sasl` was acked.
    #[must_use]
    pub fn sasl_acked(&self) -> (b: bool)
        ensures
            b == self@.acked.contains("sasl"@),
    {
        self.acked.contains("sasl")
    }

    /// Whether negotiation is complete.
    #[must_use]
    pub fn is_done(&self) -> (b: bool)
        ensures
            b == (self@.phase == Phase::Done),
    {
        self.phase == Phase::Done
    }

    /// Process one parsed message and return the actions to perform.
    ///
    /// The machine cares about `CAP * LS` (with its continuation lines),
    /// `CAP * ACK` and `CAP * NAK`; numeric `410 ERR_INVALIDCAPCMD` aborts the
    /// negotiation. Any other message yields nothing.
    pub fn handle(&mut self, msg: &Message<'_>) -> (actions: Vec<CapAction>)
        ensures
            (final(self)@, action_views(actions@)) == negotiate(old(self)@, msg@),
            old(self)@.is_finite() ==> final(self)@.is_finite(),
    {
        proof {
            if self@.is_finite() {
                negotiation_stays_finite(self@, msg@);
            }
        }
        if msg.is_numeric(410) {
            return if self.phase != Phase::Done {
                self.phase = Phase::Done;
                one_action(CapAction::Done)
            } else {
                no_action()
            };
        }
        if !msg.is_command("CAP") {
            return no_action();
        }
        let sub = match msg.param(1) {
            Some(sub) => sub,
            None => {
                return no_action();
            },
        };
        match self.phase {
            Phase::AwaitingLs => {
                if text::eq_ignore_case(sub, "LS") {
                    return self.handle_ls(msg);
                }
            },
            Phase::AwaitingAck => {
                if text::eq_ignore_case(sub, "ACK") {
                    return self.handle_ack(msg);
                }
                if text::eq_ignore_case(sub, "NAK") {
                    return self.handle_nak(msg);
                }
            },
            Phase::Done => {},
        }
        no_action()
    }

    fn handle_ls(&mut self, msg: &Message<'_>) -> (actions: Vec<CapAction>)
        requires
            old(self)@.phase == Phase::AwaitingLs,
        ensures
            (final(self)@, action_views(actions@)) == on_ls(old(self)@, msg@),
    {
        let multiline = match msg.param(2) {
            Some(p) => text::str_eq(p, "*"),
            None => false,
        };
        let caps_field_idx: usize = if multiline { 3 } else { 2 };
        let caps_field = match msg.param(caps_field_idx) {
            Some(f) => f,
            None => {
                return no_action();
            },
        };
        self.advertise(caps_field);
        if multiline {
            return no_action();
        }
        let to_request = common(&self.desired, &self.available);
        if to_request.is_empty() {
            self.phase = Phase::Done;
            return one_action(CapAction::Done);
        }
        let mut line = text::owned("CAP REQ :");
        line.append(join_caps(&to_request).as_str());
        self.requested = to_request;
        self.phase = Phase::AwaitingAck;
        one_action(CapAction::Send(line))
    }

    /// Record the capabilities of one LS line.
    fn advertise(&mut self, field: &str)
        ensures
            final(self)@ == (CapView {
                available: old(self)@.available.union(
                    cap_names(text::words(field@)).to_set(),
                ),
                ..old(self)@
            }),
    {
        let entries = text::split_nonempty(field, ' ');
        let ghost names = cap_names(text::words(field@));
        let ghost before = self@;
        let mut i: usize = 0;
        assert(before.available.union(names.take(0).to_set()) =~= before.available);
        while i < entries.len()
            invariant
                i <= entries.len(),
                names == cap_names(text::str_views(entries@)),
                self@ == (CapView {
                    available: before.available.union(names.take(i as int).to_set()),
                    ..before
                }),
            decreases entries.len() - i,
        {
            let entry = entries[i];
            let name = match text::split_once(entry, '=') {
                Some((n, _)) => n,
                None => entry,
            };
            self.available.insert(text::owned(name));
            proof {
                text_set::lemma_take_insert(names, i as int);
                assert(self@.available =~= before.available.union(names.take(i + 1).to_set()));
            }
            i = i + 1;
        }
        assert(names.take(names.len() as int) =~= names);
    }

    fn handle_ack(&mut self, msg: &Message<'_>) -> (actions: Vec<CapAction>)
        requires
            old(self)@.phase == Phase::AwaitingAck,
        ensures
            (final(self)@, action_views(actions@)) == on_ack(old(self)@, msg@),
    {
        let caps_field = match msg.param(2) {
            Some(f) => f,
            None => {
                return no_action();
            },
        };
        let caps = TextSet::from_strs(&text::split_nonempty(caps_field, ' '));
        self.record_ack(&caps);
        self.settle(&caps);
        let mut actions = one_action(CapAction::Acked(caps));
        if self.requested.is_empty() {
            self.phase = Phase::Done;
            actions.push(CapAction::Done);
            assert(action_views(actions@) =~= seq![
                CapActionView::Acked(caps@),
                CapActionView::Done,
            ]);
        }
        actions
    }

    fn handle_nak(&mut self, msg: &Message<'_>) -> (actions: Vec<CapAction>)
        requires
            old(self)@.phase == Phase::AwaitingAck,
        ensures
            (final(self)@, action_views(actions@)) == on_nak(old(self)@, msg@),
    {
        let caps_field = match msg.param(2) {
            Some(f) => f,
            None => {
                return no_action();
            },
        };
        let caps = TextSet::from_strs(&text::split_nonempty(caps_field, ' '));
        self.settle(&caps);
        let mut actions = one_action(CapAction::Nakked(caps));
        if self.requested.is_empty() {
            self.phase = Phase::Done;
            actions.push(CapAction::Done);
            assert(action_views(actions@) =~= seq![
                CapActionView::Nakked(caps@),
                CapActionView::Done,
            ]);
        }
        actions
    }

    /// Record the acked capabilities.
    fn record_ack(&mut self, caps: &TextSet)
        ensures
            final(self)@ == (CapView { acked: old(self)@.acked.union(caps@), ..old(self)@ }),
    {
        let list = caps.to_vec();
        let ghost vs = text::views(list@);
        let ghost before = self@;
        let mut i: usize = 0;
        assert(before.acked.union(vs.take(0).to_set()) =~= before.acked);
        while i < list.len()
            invariant
                i <= list.len(),
                vs == text::views(list@),
                self@ == (CapView {
                    acked: before.acked.union(vs.take(i as int).to_set()),
                    ..before
                }),
            decreases list.len() - i,
        {
            self.acked.insert(list[i].clone());
            proof {
                text_set::lemma_take_insert(vs, i as int);
                assert(self@.acked =~= before.acked.union(vs.take(i + 1).to_set()));
            }
            i = i + 1;
        }
        assert(vs.take(vs.len() as int) =~= vs);
    }

    /// Wait no longer for `caps`.
    fn settle(&mut self, caps: &TextSet)
        ensures
            final(self)@ == (CapView {
                requested: old(self)@.requested.difference(caps@),
                ..old(self)@
            }),
    {
        let list = caps.to_vec();
        let ghost vs = text::views(list@);
        let ghost before = self@;
        let mut i: usize = 0;
        assert(before.requested.difference(vs.take(0).to_set()) =~= before.requested);
        while i < list.len()
            invariant
                i <= list.len(),
                vs == text::views(list@),
                self@ == (CapView {
                    requested: before.requested.difference(vs.take(i as int).to_set()),
                    ..before
                }),
            decreases list.len() - i,
        {
            self.requested.remove(list[i].as_str());
            proof {
                text_set::lemma_take_insert(vs, i as int);
                assert(self@.requested =~= before.requested.difference(vs.take(i + 1).to_set()));
            }
            i = i + 1;
        }
        assert(vs.take(vs.len() as int) =~= vs);
    }
}

/// The members that two sets have in common.
fn common(a: &TextSet, b: &TextSet) -> (r: TextSet)
    ensures
        r@ == a@.intersect(b@),
{
    let list = a.to_vec();
    let ghost vs = text::views(list@);
    let mut r = TextSet::new();
    let mut i: usize = 0;
    assert(vs.take(0).to_set().intersect(b@) =~= Set::empty());
    while i < list.len()
        invariant
            i <= list.len(),
            vs == text::views(list@),
            r@ == vs.take(i as int).to_set().intersect(b@),
        decreases list.len() - i,
    {
        proof {
            text_set::lemma_take_insert(vs, i as int);
        }
        if b.contains(list[i].as_str()) {
            r.insert(list[i].clone());
        }
        assert(r@ =~= vs.take(i + 1).to_set().intersect(b@));
        i = i + 1;
    }
    assert(vs.take(vs.len() as int) =~= vs);
    r
}

/// The members of `caps` in order, with spaces between them.
fn join_caps(caps: &TextSet) -> (s: String)
    ensures
        s@ == text::joined(order::listing(caps@)),
{
    text::join(&caps.to_vec())
}

fn one_action(a: CapAction) -> (v: Vec<CapAction>)
    ensures
        action_views(v@) == seq![a@],
        v@.len() == 1,
        v@[0] == a,
{
    let mut v: Vec<CapAction> = Vec::new();
    v.push(a);
    assert(action_views(v@) =~= seq![a@]);
    v
}

fn no_action() -> (v: Vec<CapAction>)
    ensures
        action_views(v@) == Seq::<CapActionView>::empty(),
{
    let v: Vec<CapAction> = Vec::new();
    assert(action_views(v@) =~= Seq::<CapActionView>::empty());
    v
}

// ----- laws ------------------------------------------------------------------

/// A message leaves only so many capabilities.
pub proof fn negotiation_stays_finite(s: CapView, m: MessageView)
    requires
        s.is_finite(),
    ensures
        negotiate(s, m).0.is_finite(),
{
    if let Some(field) = m.param(2) {
        vstd::seq_lib::seq_to_set_is_finite(text::words(field));
        vstd::seq_lib::seq_to_set_is_finite(cap_names(text::words(field)));
    }
    if let Some(field) = m.param(3) {
        vstd::seq_lib::seq_to_set_is_finite(cap_names(text::words(field)));
    }
}

/// What is requested is what we desire and the server has, in order, each once.
pub proof fn requests_are_in_order(s: CapView)
    requires
        s.is_finite(),
    ensures
        ({
            let wanted = s.desired.intersect(s.available);
            &&& order::strictly_sorted(order::listing(wanted))
            &&& order::listing(wanted).to_set() == wanted
        }),
{
    order::listing_of_finite(s.desired.intersect(s.available));
}

/// A finished negotiation ignores everything.
pub proof fn done_is_final(s: CapView, m: MessageView)
    requires
        s.phase == Phase::Done,
    ensures
        negotiate(s, m) == (s, Seq::<CapActionView>::empty()),
{
}

/// `Done` is announced exactly when the negotiation finishes, and nothing
/// follows it.
pub proof fn done_is_announced_once(s: CapView, m: MessageView)
    ensures
        ({
            let (t, actions) = negotiate(s, m);
            (s.phase != Phase::Done && t.phase == Phase::Done) <==> (actions.len() > 0
                && actions.last() == CapActionView::Done)
        }),
{
    let (t, actions) = negotiate(s, m);
    if actions.len() > 0 {
        assert(actions.last() == actions[actions.len() - 1]);
    }
}

/// What is waited for is something we desire and the server advertised.
pub open spec fn requests_are_wanted(s: CapView) -> bool {
    s.requested.subset_of(s.desired) && s.requested.subset_of(s.available)
}

/// We only ever request what we desire and the server advertised.
pub proof fn negotiate_requests_only_wanted(s: CapView, m: MessageView)
    requires
        requests_are_wanted(s),
    ensures
        requests_are_wanted(negotiate(s, m).0),
{
}

/// Acked capabilities are never forgotten during a negotiation.
pub proof fn acked_only_grows(s: CapView, m: MessageView)
    ensures
        s.acked.subset_of(negotiate(s, m).0.acked),
{
}

/// The last line of an LS answers with a request for exactly what we desire and the
/// server has advertised by then, on this line or earlier ones, whatever values it gives
/// them. If that is nothing, the negotiation is over. What was acked stays.
pub proof fn last_advertisement_is_answered(s: CapView, m: MessageView)
    requires
        s.phase == Phase::AwaitingLs,
        is_subcommand(m, "LS"@),
        m.params.len() > 2,
        m.params[2] != "*"@,
    ensures
        ({
            let (t, actions) = negotiate(s, m);
            let entries = text::words(m.params[2]);
            &&& t.desired == s.desired && t.acked == s.acked
            &&& forall|c: Seq<char>| #[trigger]
                t.available.contains(c) <==> s.available.contains(c) || exists|i: int|
                    0 <= i < entries.len() && cap_name(#[trigger] entries[i]) == c
            &&& actions.len() == 1
            &&& (forall|c: Seq<char>| #[trigger]
                t.desired.contains(c) ==> !t.available.contains(c)) ==> actions[0]
                == CapActionView::Done && t.phase == Phase::Done && t.requested == s.requested
            &&& (exists|c: Seq<char>| #[trigger]
                t.desired.contains(c) && t.available.contains(c)) ==> {
                &&& t.phase == Phase::AwaitingAck
                &&& forall|c: Seq<char>| #[trigger]
                    t.requested.contains(c) <==> t.desired.contains(c) && t.available.contains(c)
                &&& actions[0] == CapActionView::Send(
                    "CAP REQ :"@ + text::joined(order::listing(t.requested)),
                )
            }
        }),
{
    let (t, actions) = negotiate(s, m);
    let entries = text::words(m.params[2]);
    lemma_advertised(s, entries);
    let wanted = t.desired.intersect(t.available);
    if forall|c: Seq<char>| #[trigger] t.desired.contains(c) ==> !t.available.contains(c) {
        assert(wanted =~= Set::<Seq<char>>::empty());
    }
    if exists|c: Seq<char>| #[trigger] t.desired.contains(c) && t.available.contains(c) {
        let c = choose|c: Seq<char>| #[trigger] t.desired.contains(c) && t.available.contains(c);
        assert(wanted.contains(c));
    }
}

proof fn lemma_advertised(s: CapView, entries: Seq<Seq<char>>)
    ensures
        forall|c: Seq<char>| #[trigger]
            s.available.union(cap_names(entries).to_set()).contains(c) <==> s.available.contains(c)
                || exists|i: int| 0 <= i < entries.len() && cap_name(#[trigger] entries[i]) == c,
{
    let names = cap_names(entries);
    assert forall|c: Seq<char>| #[trigger] s.available.union(names.to_set()).contains(c)
        <==> s.available.contains(c) || exists|i: int|
            0 <= i < entries.len() && cap_name(#[trigger] entries[i]) == c by {
        if names.to_set().contains(c) {
            let i = choose|i: int| 0 <= i < names.len() && names[i] == c;
            assert(cap_name(entries[i]) == c);
        }
        if exists|i: int| 0 <= i < entries.len() && cap_name(#[trigger] entries[i]) == c {
            let i = choose|i: int| 0 <= i < entries.len() && cap_name(#[trigger] entries[i]) == c;
            assert(names[i] == c);
        }
    }
}

/// A line of an LS that more lines follow only adds to what the server has; nothing is
/// sent yet.
pub proof fn partial_advertisement_is_kept(s: CapView, m: MessageView)
    requires
        s.phase == Phase::AwaitingLs,
        is_subcommand(m, "LS"@),
        m.params.len() > 3,
        m.params[2] == "*"@,
    ensures
        ({
            let (t, actions) = negotiate(s, m);
            let entries = text::words(m.params[3]);
            &&& actions.len() == 0
            &&& t.desired == s.desired && t.acked == s.acked && t.requested == s.requested
                && t.phase == s.phase
            &&& forall|c: Seq<char>| #[trigger]
                t.available.contains(c) <==> s.available.contains(c) || exists|i: int|
                    0 <= i < entries.len() && cap_name(#[trigger] entries[i]) == c
        }),
{
    lemma_advertised(s, text::words(m.params[3]));
}

/// A capability is advertised by its name, with or without a value behind `=`.
pub proof fn value_does_not_name_a_capability(name: Seq<char>, value: Seq<char>)
    requires
        !name.contains('='),
    ensures
        cap_name(name) == name,
        cap_name(name.push('=') + value) == name,
{
    let s = name.push('=') + value;
    text::lemma_position(name, '=');
    text::lemma_position(s, '=');
    assert(s[name.len() as int] == '=');
    assert(s.contains('='));
    let i = text::position(s, '=');
    if i < name.len() {
        assert(name.contains(name[i]));
    }
    assert(s.take(i) =~= name);
}

/// An ACK, and only an ACK, makes the capabilities it lists acked. Both ACK and NAK
/// settle what they list, and the negotiation is over once everything requested is
/// settled.
pub proof fn answers_settle_requests(s: CapView, m: MessageView, ack: bool)
    requires
        s.phase == Phase::AwaitingAck,
        ack ==> is_subcommand(m, "ACK"@),
        !ack ==> is_subcommand(m, "NAK"@),
        m.params.len() > 2,
    ensures
        ({
            let (t, actions) = negotiate(s, m);
            let listed = text::words(m.params[2]);
            &&& t.desired == s.desired && t.available == s.available
            &&& forall|c: Seq<char>| #[trigger]
                t.acked.contains(c) <==> s.acked.contains(c) || (ack && listed.contains(c))
            &&& forall|c: Seq<char>| #[trigger]
                t.requested.contains(c) <==> s.requested.contains(c) && !listed.contains(c)
            &&& actions.len() >= 1
            &&& actions[0] == if ack {
                CapActionView::Acked(listed.to_set())
            } else {
                CapActionView::Nakked(listed.to_set())
            }
            &&& (forall|c: Seq<char>| #[trigger] s.requested.contains(c) ==> listed.contains(c))
                ==> t.phase == Phase::Done && actions.len() == 2 && actions[1]
                == CapActionView::Done
            &&& (exists|c: Seq<char>| #[trigger] s.requested.contains(c) && !listed.contains(c))
                ==> t.phase == Phase::AwaitingAck && actions.len() == 1
        }),
{
    reveal_strlit("ACK");
    reveal_strlit("NAK");
    assert(text::lower_char('A') == 'a');
    assert(text::lower_char('N') == 'n');
    assert(text::lower("ACK"@)[0] == 'a');
    assert(text::lower("NAK"@)[0] == 'n');
    let (t, actions) = negotiate(s, m);
    let listed = text::words(m.params[2]);
    if forall|c: Seq<char>| #[trigger] s.requested.contains(c) ==> listed.contains(c) {
        assert(s.requested.difference(listed.to_set()) =~= Set::<Seq<char>>::empty());
    }
    if exists|c: Seq<char>| #[trigger] s.requested.contains(c) && !listed.contains(c) {
        let c = choose|c: Seq<char>| #[trigger] s.requested.contains(c) && !listed.contains(c);
        assert(s.requested.difference(listed.to_set()).contains(c));
    }
}

/// A server that does not know CAP ends the negotiation.
pub proof fn invalid_command_ends_negotiation(s: CapView, m: MessageView)
    requires
        m.command == CommandView::Numeric(410),
        s.phase != Phase::Done,
    ensures
        negotiate(s, m).0 == (CapView { phase: Phase::Done, ..s }),
        negotiate(s, m).1.len() == 1,
        negotiate(s, m).1[0] == CapActionView::Done,
{
}

/// A message that is neither CAP nor numeric 410 is none of the negotiation's business.
pub proof fn other_messages_are_ignored(s: CapView, m: MessageView)
    requires
        !m.is_command("CAP"@),
        m.command != CommandView::Numeric(410),
    ensures
        negotiate(s, m).0 == s,
        negotiate(s, m).1.len() == 0,
{
}

} // verus!
