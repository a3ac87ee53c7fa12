//! IRC session state machine: ties capability negotiation, SASL, server state
//! and the mode queue together.
//!
//! 1. On `Connected`, send `CAP LS 302`, `NICK` and `USER`.
//! 2. Drive the capability negotiation. If `sasl` is acked and a mechanism is
//!    configured, run the `AUTHENTICATE` flow; otherwise (or after SASL
//!    completes) send `CAP END`.
//! 3. Feed every parsed line into the server state; on `RPL_WELCOME`, report
//!    ready and join the configured channels.
//! 4. Answer `PING` with `PONG`.
//! 5. On a periodic tick, flush the mode queue.
//!
//! Nothing survives a disconnect: a reconnect runs the whole dance again.
//!
//! The machine performs no I/O. Each event yields the [`SessionAction`]s that
//! its driver carries out, in order.

use crate::ircd::caps;
use crate::ircd::caps::{CapAction, CapActionView, CapNegotiation, CapView};
use crate::ircd::connection::ConnectionEvent;
use crate::ircd::message::{Command, CommandView, Message, MessageView};
use crate::ircd::mode_queue;
use crate::ircd::mode_queue::{ModeQueue, QueueView};
use crate::ircd::parser;
use crate::ircd::sasl;
use crate::ircd::sasl::{SaslMechanism, SaslView};
use crate::ircd::state;
use crate::ircd::state::{EventView, ServerState, ServerView, StateEvent};
use crate::order;
use crate::text;
use vstd::prelude::*;
use vstd::string::*;

verus! {

/// Inputs needed to drive one IRC session.
#[derive(Debug, Clone, PartialEq, Eq)]
pub struct SessionConfig {
    /// Initial nickname requested via `NICK`.
    pub nick: String,
    /// Username field of `USER`.
    pub ident: String,
    /// Realname field of `USER`.
    pub realname: String,
    /// Capabilities to request if the server advertises them.
    pub desired_caps: Vec<String>,
    /// SASL mechanism and credentials. `None` skips SASL even if `sasl` is
    /// acked.
    pub sasl: Option<SaslMechanism>,
    /// Channels to `JOIN` once `RPL_WELCOME` is received.
    pub channels: Vec<String>,
}

/// What a [`SessionConfig`] says.
pub struct ConfigView {
    pub nick: Seq<char>,
    pub ident: Seq<char>,
    pub realname: Seq<char>,
    pub desired_caps: Seq<Seq<char>>,
    pub sasl: Option<SaslView>,
    pub channels: Seq<Seq<char>>,
}

impl View for SessionConfig {
    type V = ConfigView;

    open spec fn view(&self) -> ConfigView {
        ConfigView {
            nick: self.nick@,
            ident: self.ident@,
            realname: self.realname@,
            desired_caps: text::views(self.desired_caps@),
            sasl: match self.sasl {
                Some(m) => Some(m@),
                None => None,
            },
            channels: text::views(self.channels@),
        }
    }
}

/// High-level events the session emits for consumers.
#[derive(Debug, Clone, PartialEq, Eq)]
pub enum SessionEvent {
    /// `RPL_WELCOME` received; the bot is registered as `nick`.
    Welcomed { nick: String },
    /// A `PRIVMSG` was delivered.
    Privmsg { from: Option<String>, target: String, body: String },
    /// A `NOTICE` was delivered.
    Notice { from: Option<String>, target: String, body: String },
    /// Someone joined a channel; us if `is_self`.
    Joined {
        channel: String,
        nick: String,
        user: Option<String>,
        host: Option<String>,
        is_self: bool,
    },
    /// SASL succeeded, or failed or was skipped.
    SaslOutcome { succeeded: bool },
    /// The connection dropped; it will be tried again after the delay.
    Disconnected { reason: String, delay_ms: u64 },
}

/// What a [`SessionEvent`] says.
pub enum SessionEventView {
    Welcomed { nick: Seq<char> },
    Privmsg { from: Option<Seq<char>>, target: Seq<char>, body: Seq<char> },
    Notice { from: Option<Seq<char>>, target: Seq<char>, body: Seq<char> },
    Joined {
        channel: Seq<char>,
        nick: Seq<char>,
        user: Option<Seq<char>>,
        host: Option<Seq<char>>,
        is_self: bool,
    },
    SaslOutcome { succeeded: bool },
    Disconnected { reason: Seq<char>, delay_ms: u64 },
}

impl View for SessionEvent {
    type V = SessionEventView;

    open spec fn view(&self) -> SessionEventView {
        match *self {
            SessionEvent::Welcomed { nick } => SessionEventView::Welcomed { nick: nick@ },
            SessionEvent::Privmsg { from, target, body } => SessionEventView::Privmsg {
                from: text::opt_view(from),
                target: target@,
                body: body@,
            },
            SessionEvent::Notice { from, target, body } => SessionEventView::Notice {
                from: text::opt_view(from),
                target: target@,
                body: body@,
            },
            SessionEvent::Joined { channel, nick, user, host, is_self } => SessionEventView::Joined {
                channel: channel@,
                nick: nick@,
                user: text::opt_view(user),
                host: text::opt_view(host),
                is_self,
            },
            SessionEvent::SaslOutcome { succeeded } => SessionEventView::SaslOutcome { succeeded },
            SessionEvent::Disconnected { reason, delay_ms } => SessionEventView::Disconnected {
                reason: reason@,
                delay_ms,
            },
        }
    }
}

/// One thing the session's driver has to do.
#[derive(Debug, Clone, PartialEq, Eq)]
pub enum SessionAction {
    /// Write this line to the server (without CRLF).
    Send(String),
    /// Hand this event to the consumer.
    Emit(SessionEvent),
    /// Set the "IRC connected" readiness flag.
    SetReady(bool),
}

/// What a [`SessionAction`] asks for.
pub enum ActionView {
    Send(Seq<char>),
    Emit(SessionEventView),
    SetReady(bool),
}

impl View for SessionAction {
    type V = ActionView;

    open spec fn view(&self) -> ActionView {
        match *self {
            SessionAction::Send(line) => ActionView::Send(line@),
            SessionAction::Emit(e) => ActionView::Emit(e@),
            SessionAction::SetReady(b) => ActionView::SetReady(b),
        }
    }
}

/// The views of a list of actions.
pub open spec fn action_views(v: Seq<SessionAction>) -> Seq<ActionView> {
    Seq::new(v.len(), |i: int| v[i]@)
}

/// How far a session has come.
#[derive(Debug, Clone, Copy, PartialEq, Eq, Structural)]
pub enum Phase {
    /// Nothing has been sent yet.
    Disconnected,
    /// `CAP LS 302`, `NICK` and `USER` have been sent.
    NegotiatingCaps,
    /// `sasl` was acked and the `AUTHENTICATE` flow has begun.
    AuthenticatingSasl,
    /// `CAP END` sent; waiting for `RPL_WELCOME`.
    AwaitingWelcome,
    /// `RPL_WELCOME` received.
    Registered,
}

/// The session state machine.
#[derive(Debug, PartialEq, Eq)]
pub struct Runner {
    config: SessionConfig,
    caps: CapNegotiation,
    state: ServerState,
    mode_queue: ModeQueue,
    phase: Phase,
}

/// The state of a session.
pub struct SessionView {
    pub config: ConfigView,
    pub caps: CapView,
    pub state: ServerView,
    pub queue: QueueView,
    pub phase: Phase,
}

impl View for Runner {
    type V = SessionView;

    closed spec fn view(&self) -> SessionView {
        SessionView {
            config: self.config@,
            caps: self.caps@,
            state: self.state@,
            queue: self.mode_queue@,
            phase: self.phase,
        }
    }
}

// ----- what each event does --------------------------------------------------

/// A session state and the actions that led to it.
pub type SessionOutcome = (SessionView, Seq<ActionView>);

/// The outcome `first`, with what follows it appended.
pub open spec fn chain(first: Seq<ActionView>, rest: SessionOutcome) -> SessionOutcome {
    (rest.0, first + rest.1)
}

/// A session that has not connected yet.
pub open spec fn fresh(config: ConfigView) -> SessionView {
    SessionView {
        config,
        caps: CapView {
            desired: config.desired_caps.to_set(),
            available: Set::empty(),
            acked: Set::empty(),
            requested: Set::empty(),
            phase: caps::Phase::AwaitingLs,
        },
        state: state::initial(),
        queue: Map::empty(),
        phase: Phase::Disconnected,
    }
}

/// The registration lines, sent as soon as the connection stands.
pub open spec fn on_connected(s: SessionView) -> SessionOutcome {
    (
        SessionView { phase: Phase::NegotiatingCaps, ..s },
        seq![
            ActionView::Send("CAP LS 302"@),
            ActionView::Send("NICK "@ + s.config.nick),
            ActionView::Send("USER "@ + s.config.ident + " 0 * :"@ + s.config.realname),
        ],
    )
}

/// A lost connection: everything starts over.
pub open spec fn on_disconnected(
    s: SessionView,
    reason: Seq<char>,
    delay_ms: u64,
) -> SessionOutcome {
    (
        fresh(s.config),
        seq![
            ActionView::SetReady(false),
            ActionView::Emit(SessionEventView::Disconnected { reason, delay_ms }),
        ],
    )
}

/// The end of capability negotiation, with the outcome of SASL.
pub open spec fn end_caps(s: SessionView, succeeded: bool) -> SessionOutcome {
    (
        SessionView { phase: Phase::AwaitingWelcome, ..s },
        seq![
            ActionView::Emit(SessionEventView::SaslOutcome { succeeded }),
            ActionView::Send("CAP END"@),
        ],
    )
}

/// After the negotiation: SASL, if it was acked and is configured; otherwise
/// `CAP END`.
pub open spec fn on_caps_done(s: SessionView) -> SessionOutcome {
    match s.config.sasl {
        Some(mech) if s.caps.acked.contains("sasl"@) => (
            SessionView { phase: Phase::AuthenticatingSasl, ..s },
            seq![ActionView::Send(mech.start_line())],
        ),
        _ => end_caps(s, false),
    }
}

/// What one negotiation action does.
pub open spec fn on_cap_action(s: SessionView, a: CapActionView) -> SessionOutcome {
    match a {
        CapActionView::Send(line) => (s, seq![ActionView::Send(line)]),
        CapActionView::Done => on_caps_done(s),
        _ => (s, Seq::empty()),
    }
}

/// What a list of negotiation actions does, one after the other.
pub open spec fn on_cap_actions(s: SessionView, actions: Seq<CapActionView>) -> SessionOutcome
    decreases actions.len(),
{
    if actions.len() == 0 {
        (s, Seq::empty())
    } else {
        let before = on_cap_actions(s, actions.drop_last());
        chain(before.1, on_cap_action(before.0, actions.last()))
    }
}

/// Lines to write.
pub open spec fn sends(lines: Seq<Seq<char>>) -> Seq<ActionView> {
    Seq::new(lines.len(), |i: int| ActionView::Send(lines[i]))
}

/// A numeric that ends the SASL flow without success.
pub open spec fn is_sasl_failure(n: u16) -> bool {
    n == 902 || n == 904 || n == 905 || n == 906 || n == 907
}

/// What a message does while SASL is under way: `AUTHENTICATE +` asks for the
/// payload, 903 is success, and a failure ends the flow without wedging the
/// session.
pub open spec fn on_sasl_message(s: SessionView, m: MessageView) -> SessionOutcome {
    if m.is_command("AUTHENTICATE"@) {
        match s.config.sasl {
            Some(mech) if m.param(0) == Some("+"@) => (
                s,
                sends(sasl::payload_lines(mech.payload())),
            ),
            _ => (s, Seq::empty()),
        }
    } else if m.command == CommandView::Numeric(903) {
        end_caps(s, true)
    } else {
        match m.command {
            CommandView::Numeric(n) if is_sasl_failure(n) => end_caps(s, false),
            _ => (s, Seq::empty()),
        }
    }
}

/// The JOIN lines for the channels `channels`.
pub open spec fn join_lines(channels: Seq<Seq<char>>) -> Seq<Seq<char>> {
    Seq::new(channels.len(), |i: int| "JOIN "@ + channels[i])
}

/// What one server-state event does.
pub open spec fn on_state_event(s: SessionView, e: EventView) -> SessionOutcome {
    match e {
        EventView::Welcomed { nick } => (
            SessionView { phase: Phase::Registered, ..s },
            seq![
                ActionView::SetReady(true),
                ActionView::Emit(SessionEventView::Welcomed { nick }),
            ] + sends(join_lines(s.config.channels)),
        ),
        EventView::Joined { channel, member, is_self } => (
            s,
            seq![
                ActionView::Emit(
                    SessionEventView::Joined {
                        channel,
                        nick: member.nick,
                        user: member.user,
                        host: member.host,
                        is_self,
                    },
                ),
            ],
        ),
        EventView::Ping { token } => (s, seq![ActionView::Send("PONG :"@ + token)]),
        EventView::Privmsg { from, target, body } => (
            s,
            seq![ActionView::Emit(SessionEventView::Privmsg { from, target, body })],
        ),
        EventView::Notice { from, target, body } => (
            s,
            seq![ActionView::Emit(SessionEventView::Notice { from, target, body })],
        ),
        _ => (s, Seq::empty()),
    }
}

/// What a list of server-state events does, one after the other.
pub open spec fn on_state_events(s: SessionView, events: Seq<EventView>) -> SessionOutcome
    decreases events.len(),
{
    if events.len() == 0 {
        (s, Seq::empty())
    } else {
        let before = on_state_events(s, events.drop_last());
        chain(before.1, on_state_event(before.0, events.last()))
    }
}

/// What a parsed message does: negotiation first, then SASL if it is under way,
/// then the server state.
pub open spec fn on_message(s: SessionView, m: MessageView) -> SessionOutcome {
    let (caps_after, cap_actions) = caps::negotiate(s.caps, m);
    let (s1, a1) = on_cap_actions(SessionView { caps: caps_after, ..s }, cap_actions);
    let (s2, a2) = if s1.phase == Phase::AuthenticatingSasl {
        on_sasl_message(s1, m)
    } else {
        (s1, Seq::empty())
    };
    let (state_after, events) = state::step(s2.state, m);
    let (s3, a3) = on_state_events(SessionView { state: state_after, ..s2 }, events);
    (s3, a1 + a2 + a3)
}

/// What a line does. A line that does not parse is dropped.
pub open spec fn on_line(s: SessionView, line: Seq<char>) -> SessionOutcome {
    match parser::parsed(line) {
        Ok(m) => on_message(s, m),
        Err(_) => (s, Seq::empty()),
    }
}

/// What a connection event does.
pub open spec fn on_event(s: SessionView, e: ConnectionEvent) -> SessionOutcome {
    match e {
        ConnectionEvent::Connected => on_connected(s),
        ConnectionEvent::Line(line) => on_line(s, line@),
        ConnectionEvent::Disconnected { reason, delay_ms } => on_disconnected(
            s,
            reason@,
            delay_ms,
        ),
    }
}

/// The second texts of a list of pairs.
pub open spec fn seconds(pairs: Seq<(Seq<char>, Seq<char>)>) -> Seq<Seq<char>> {
    Seq::new(pairs.len(), |i: int| pairs[i].1)
}

/// The periodic tick: everything pending in the mode queue is sent.
pub open spec fn on_tick(s: SessionView) -> SessionOutcome {
    (
        SessionView { queue: mode_queue::after_poll(s.queue, true), ..s },
        sends(
            seconds(mode_queue::poll_output(s.queue, order::listing(s.queue.dom()), true)),
        ),
    )
}

// ----- the machine -----------------------------------------------------------

/// Append one line to write.
fn send(out: &mut Vec<SessionAction>, line: String)
    ensures
        action_views(final(out)@) == action_views(old(out)@).push(ActionView::Send(line@)),
{
    let ghost before = action_views(out@);
    out.push(SessionAction::Send(line));
    assert(action_views(out@) =~= before.push(ActionView::Send(line@)));
}

/// Append one event for the consumer.
fn emit(out: &mut Vec<SessionAction>, e: SessionEvent)
    ensures
        action_views(final(out)@) == action_views(old(out)@).push(ActionView::Emit(e@)),
{
    let ghost before = action_views(out@);
    out.push(SessionAction::Emit(e));
    assert(action_views(out@) =~= before.push(ActionView::Emit(e@)));
}

/// Append a change of the readiness flag.
fn set_ready(out: &mut Vec<SessionAction>, value: bool)
    ensures
        action_views(final(out)@) == action_views(old(out)@).push(ActionView::SetReady(value)),
{
    let ghost before = action_views(out@);
    out.push(SessionAction::SetReady(value));
    assert(action_views(out@) =~= before.push(ActionView::SetReady(value)));
}

/// Append lines to write.
fn send_all(out: &mut Vec<SessionAction>, lines: &Vec<String>)
    ensures
        action_views(final(out)@) == action_views(old(out)@) + sends(text::views(lines@)),
{
    let ghost start = action_views(out@);
    let ghost ls = text::views(lines@);
    let mut i: usize = 0;
    assert(start + sends(ls.take(0)) =~= start);
    while i < lines.len()
        invariant
            i <= lines.len(),
            ls == text::views(lines@),
            action_views(out@) == start + sends(ls.take(i as int)),
        decreases lines.len() - i,
    {
        send(out, lines[i].clone());
        proof {
            assert(sends(ls.take(i + 1)) =~= sends(ls.take(i as int)).push(
                ActionView::Send(ls[i as int]),
            ));
            assert(action_views(out@) =~= start + sends(ls.take(i + 1)));
        }
        i = i + 1;
    }
    assert(ls.take(ls.len() as int) =~= ls);
}

impl Runner {
    /// A session that has not connected yet.
    pub fn new(config: SessionConfig) -> (r: Self)
        ensures
            r@ == fresh(config@),
    {
        let caps = CapNegotiation::new(text::copy_list(&config.desired_caps));
        Runner {
            config,
            caps,
            state: ServerState::new(),
            mode_queue: ModeQueue::new(),
            phase: Phase::Disconnected,
        }
    }

    /// How far the session has come.
    pub fn phase(&self) -> (p: Phase)
        ensures
            p == self@.phase,
    {
        self.phase
    }

    /// Start over.
    fn reset_for_reconnect(&mut self, out: &mut Vec<SessionAction>)
        ensures
            final(self)@ == fresh(old(self)@.config),
            action_views(final(out)@) == action_views(old(out)@).push(ActionView::SetReady(false)),
    {
        self.caps = CapNegotiation::new(text::copy_list(&self.config.desired_caps));
        self.state = ServerState::new();
        self.mode_queue = ModeQueue::new();
        self.phase = Phase::Disconnected;
        set_ready(out, false);
    }

    /// Process one connection event and return what is to be done.
    pub fn handle_connection_event(&mut self, evt: ConnectionEvent) -> (out: Vec<SessionAction>)
        ensures
            (final(self)@, action_views(out@)) == on_event(old(self)@, evt),
    {
        let mut out: Vec<SessionAction> = Vec::new();
        assert(action_views(out@) =~= Seq::empty());
        match evt {
            ConnectionEvent::Connected => {
                self.phase = Phase::NegotiatingCaps;
                send(&mut out, text::owned(CapNegotiation::initial_command()));
                send(&mut out, text::concat("NICK ", self.config.nick.as_str()));
                let mut user = text::concat("USER ", self.config.ident.as_str());
                user.append(" 0 * :");
                user.append(self.config.realname.as_str());
                send(&mut out, user);
                assert(action_views(out@) =~= on_connected(old(self)@).1);
            },
            ConnectionEvent::Line(line) => {
                self.handle_line(line.as_str(), &mut out);
            },
            ConnectionEvent::Disconnected { reason, delay_ms } => {
                self.reset_for_reconnect(&mut out);
                emit(&mut out, SessionEvent::Disconnected { reason, delay_ms });
                assert(action_views(out@) =~= on_disconnected(old(self)@, reason@, delay_ms).1);
            },
        }
        out
    }

    fn handle_line(&mut self, line: &str, out: &mut Vec<SessionAction>)
        requires
            old(out)@.len() == 0,
        ensures
            (final(self)@, action_views(final(out)@)) == on_line(old(self)@, line@),
    {
        assert(action_views(out@) =~= Seq::empty());
        match parser::parse_str(line) {
            Ok(msg) => {
                self.handle_message(&msg, out);
            },
            Err(_) => {},
        }
    }

    fn handle_message(&mut self, msg: &Message<'_>, out: &mut Vec<SessionAction>)
        requires
            action_views(old(out)@) == Seq::<ActionView>::empty(),
        ensures
            (final(self)@, action_views(final(out)@)) == on_message(old(self)@, msg@),
    {
        let ghost s0 = self@;
        let cap_actions = self.caps.handle(msg);
        let ghost s1 = self@;
        self.apply_cap_actions(cap_actions, out);
        let ghost a1 = action_views(out@);
        let ghost s2 = self@;
        assert(a1 =~= on_cap_actions(s1, caps::action_views(cap_actions@)).1);
        let ghost sasl = if s2.phase == Phase::AuthenticatingSasl {
            on_sasl_message(s2, msg@)
        } else {
            (s2, Seq::empty())
        };
        if self.phase == Phase::AuthenticatingSasl {
            self.drive_sasl(msg, out);
        }
        assert(action_views(out@) =~= a1 + sasl.1);
        let events = self.state.process(msg);
        self.apply_state_events(events, out);
        assert(action_views(out@) =~= on_message(s0, msg@).1);
    }

    fn apply_cap_actions(&mut self, actions: Vec<CapAction>, out: &mut Vec<SessionAction>)
        ensures
            ({
                let r = on_cap_actions(old(self)@, caps::action_views(actions@));
                &&& final(self)@ == r.0
                &&& action_views(final(out)@) == action_views(old(out)@) + r.1
            }),
    {
        let ghost vs = caps::action_views(actions@);
        let ghost start = action_views(out@);
        let ghost s = self@;
        let mut i: usize = 0;
        assert(vs.take(0) =~= Seq::empty());
        assert(start + on_cap_actions(s, vs.take(0)).1 =~= start);
        while i < actions.len()
            invariant
                i <= actions.len(),
                vs == caps::action_views(actions@),
                self@ == on_cap_actions(s, vs.take(i as int)).0,
                action_views(out@) == start + on_cap_actions(s, vs.take(i as int)).1,
            decreases actions.len() - i,
        {
            proof {
                assert(vs.take(i + 1).drop_last() =~= vs.take(i as int));
                assert(vs.take(i + 1).last() == actions@[i as int]@);
            }
            self.apply_cap_action(&actions[i], out);
            i = i + 1;
            assert(action_views(out@) =~= start + on_cap_actions(s, vs.take(i as int)).1);
        }
        assert(vs.take(vs.len() as int) =~= vs);
    }

    fn apply_cap_action(&mut self, action: &CapAction, out: &mut Vec<SessionAction>)
        ensures
            ({
                let r = on_cap_action(old(self)@, action@);
                &&& final(self)@ == r.0
                &&& action_views(final(out)@) == action_views(old(out)@) + r.1
            }),
    {
        let ghost start = action_views(out@);
        match action {
            CapAction::Send(line) => {
                send(out, line.clone());
                assert(action_views(out@) =~= start + seq![ActionView::Send(line@)]);
            },
            CapAction::Acked(_) => {
                assert(start + Seq::<ActionView>::empty() =~= start);
            },
            CapAction::Nakked(_) => {
                assert(start + Seq::<ActionView>::empty() =~= start);
            },
            CapAction::Done => {
                self.handle_caps_done(out);
            },
        }
    }

    fn handle_caps_done(&mut self, out: &mut Vec<SessionAction>)
        ensures
            ({
                let r = on_caps_done(old(self)@);
                &&& final(self)@ == r.0
                &&& action_views(final(out)@) == action_views(old(out)@) + r.1
            }),
    {
        let ghost start = action_views(out@);
        if self.caps.sasl_acked() {
            if let Some(mech) = &self.config.sasl {
                let line = sasl::authenticate_start(mech);
                let ghost l = line@;
                send(out, line);
                self.phase = Phase::AuthenticatingSasl;
                assert(action_views(out@) =~= start + seq![ActionView::Send(l)]);
                return;
            }
        }
        self.finish_caps(false, out);
    }

    /// End the capability negotiation, reporting the outcome of SASL.
    fn finish_caps(&mut self, succeeded: bool, out: &mut Vec<SessionAction>)
        ensures
            ({
                let r = end_caps(old(self)@, succeeded);
                &&& final(self)@ == r.0
                &&& action_views(final(out)@) == action_views(old(out)@) + r.1
            }),
    {
        let ghost start = action_views(out@);
        emit(out, SessionEvent::SaslOutcome { succeeded });
        send(out, text::owned("CAP END"));
        self.phase = Phase::AwaitingWelcome;
        assert(action_views(out@) =~= start + end_caps(old(self)@, succeeded).1);
    }

    fn drive_sasl(&mut self, msg: &Message<'_>, out: &mut Vec<SessionAction>)
        ensures
            ({
                let r = on_sasl_message(old(self)@, msg@);
                &&& final(self)@ == r.0
                &&& action_views(final(out)@) == action_views(old(out)@) + r.1
            }),
    {
        let ghost start = action_views(out@);
        assert(start + Seq::<ActionView>::empty() =~= start);
        if msg.is_command("AUTHENTICATE") {
            let asked = match msg.param(0) {
                Some(p) => text::str_eq(p, "+"),
                None => false,
            };
            if asked {
                if let Some(mech) = &self.config.sasl {
                    let lines = sasl::sasl_authenticate_lines(mech);
                    send_all(out, &lines);
                }
            }
            return;
        }
        if let Command::Numeric(n) = msg.command {
            if n == 903 {
                self.finish_caps(true, out);
            } else if n == 902 || n == 904 || n == 905 || n == 906 || n == 907 {
                self.finish_caps(false, out);
            }
        }
    }

    fn apply_state_events(&mut self, events: Vec<StateEvent>, out: &mut Vec<SessionAction>)
        ensures
            ({
                let r = on_state_events(old(self)@, state::event_views(events@));
                &&& final(self)@ == r.0
                &&& action_views(final(out)@) == action_views(old(out)@) + r.1
            }),
    {
        let ghost vs = state::event_views(events@);
        let ghost start = action_views(out@);
        let ghost s = self@;
        let mut i: usize = 0;
        assert(vs.take(0) =~= Seq::empty());
        assert(start + on_state_events(s, vs.take(0)).1 =~= start);
        while i < events.len()
            invariant
                i <= events.len(),
                vs == state::event_views(events@),
                self@ == on_state_events(s, vs.take(i as int)).0,
                action_views(out@) == start + on_state_events(s, vs.take(i as int)).1,
            decreases events.len() - i,
        {
            proof {
                assert(vs.take(i + 1).drop_last() =~= vs.take(i as int));
                assert(vs.take(i + 1).last() == events@[i as int]@);
            }
            self.apply_state_event(&events[i], out);
            i = i + 1;
            assert(action_views(out@) =~= start + on_state_events(s, vs.take(i as int)).1);
        }
        assert(vs.take(vs.len() as int) =~= vs);
    }

    fn apply_state_event(&mut self, evt: &StateEvent, out: &mut Vec<SessionAction>)
        ensures
            ({
                let r = on_state_event(old(self)@, evt@);
                &&& final(self)@ == r.0
                &&& action_views(final(out)@) == action_views(old(out)@) + r.1
            }),
    {
        let ghost start = action_views(out@);
        let ghost want = on_state_event(self@, evt@);
        match evt {
            StateEvent::Welcomed { nick } => {
                self.phase = Phase::Registered;
                set_ready(out, true);
                emit(out, SessionEvent::Welcomed { nick: nick.clone() });
                let lines = self.join_channel_lines();
                send_all(out, &lines);
            },
            StateEvent::Joined { channel, member, is_self } => {
                emit(
                    out,
                    SessionEvent::Joined {
                        channel: channel.clone(),
                        nick: member.nick.clone(),
                        user: text::opt_clone(&member.user),
                        host: text::opt_clone(&member.host),
                        is_self: *is_self,
                    },
                );
            },
            StateEvent::Ping { token } => {
                send(out, text::concat("PONG :", token.as_str()));
            },
            StateEvent::Privmsg { from, target, body } => {
                emit(
                    out,
                    SessionEvent::Privmsg {
                        from: text::opt_clone(from),
                        target: target.clone(),
                        body: body.clone(),
                    },
                );
            },
            StateEvent::Notice { from, target, body } => {
                emit(
                    out,
                    SessionEvent::Notice {
                        from: text::opt_clone(from),
                        target: target.clone(),
                        body: body.clone(),
                    },
                );
            },
            _ => {},
        }
        assert(action_views(out@) =~= start + want.1);
    }

    /// The JOIN lines for the configured channels.
    fn join_channel_lines(&self) -> (lines: Vec<String>)
        ensures
            text::views(lines@) == join_lines(self@.config.channels),
    {
        let mut lines: Vec<String> = Vec::new();
        let mut i: usize = 0;
        while i < self.config.channels.len()
            invariant
                i <= self.config.channels.len(),
                lines@.len() == i,
                forall|j: int|
                    0 <= j < i ==> (#[trigger] lines@[j])@ == "JOIN "@
                        + self.config.channels@[j]@,
            decreases self.config.channels.len() - i,
        {
            lines.push(text::concat("JOIN ", self.config.channels[i].as_str()));
            i = i + 1;
        }
        assert(text::views(lines@) =~= join_lines(self@.config.channels));
        lines
    }

    /// The periodic tick: send everything pending in the mode queue.
    pub fn flush_mode_queue(&mut self) -> (out: Vec<SessionAction>)
        ensures
            (final(self)@, action_views(out@)) == on_tick(old(self)@),
    {
        let due = self.mode_queue.poll_due(true);
        let ghost pairs = mode_queue::pair_views(due@);
        let ghost lines = seconds(pairs);
        let mut out: Vec<SessionAction> = Vec::new();
        let mut i: usize = 0;
        assert(action_views(out@) =~= sends(lines.take(0)));
        while i < due.len()
            invariant
                i <= due.len(),
                pairs == mode_queue::pair_views(due@),
                lines == seconds(pairs),
                action_views(out@) == sends(lines.take(i as int)),
            decreases due.len() - i,
        {
            send(&mut out, due[i].1.clone());
            proof {
                assert(sends(lines.take(i + 1)) =~= sends(lines.take(i as int)).push(
                    ActionView::Send(lines[i as int]),
                ));
            }
            i = i + 1;
        }
        assert(lines.take(lines.len() as int) =~= lines);
        out
    }
}

// ----- laws ------------------------------------------------------------------

/// A disconnect leaves nothing behind: the session is as before its first
/// connection, and no longer ready.
pub proof fn disconnect_starts_over(s: SessionView, reason: Seq<char>, delay_ms: u64)
    ensures
        on_disconnected(s, reason, delay_ms).0 == fresh(s.config),
        on_disconnected(s, reason, delay_ms).1[0] == ActionView::SetReady(false),
{
}

/// The configuration never changes.
pub proof fn config_is_constant(s: SessionView, e: ConnectionEvent)
    ensures
        on_event(s, e).0.config == s.config,
{
    if let ConnectionEvent::Line(line) = e {
        if let Ok(m) = parser::parsed(line@) {
            let (caps_after, cap_actions) = caps::negotiate(s.caps, m);
            let t = SessionView { caps: caps_after, ..s };
            lemma_cap_actions_config(t, cap_actions);
            let s1 = on_cap_actions(t, cap_actions).0;
            let s2 = if s1.phase == Phase::AuthenticatingSasl {
                on_sasl_message(s1, m).0
            } else {
                s1
            };
            let (state_after, events) = state::step(s2.state, m);
            lemma_state_events_config(SessionView { state: state_after, ..s2 }, events);
        }
    }
}

proof fn lemma_cap_actions_config(s: SessionView, actions: Seq<CapActionView>)
    ensures
        on_cap_actions(s, actions).0.config == s.config,
        on_cap_actions(s, actions).0.state == s.state,
    decreases actions.len(),
{
    if actions.len() > 0 {
        lemma_cap_actions_config(s, actions.drop_last());
    }
}

proof fn lemma_state_events_config(s: SessionView, events: Seq<EventView>)
    ensures
        on_state_events(s, events).0.config == s.config,
        on_state_events(s, events).0.state == s.state,
    decreases events.len(),
{
    if events.len() > 0 {
        lemma_state_events_config(s, events.drop_last());
    }
}

/// A PING with a token is answered with a PONG carrying the same token, in
/// every phase of the session.
pub proof fn ping_is_always_answered(s: SessionView, m: MessageView)
    requires
        m.is_command("PING"@),
        m.param(0) is Some,
    ensures
        on_message(s, m).1.contains(ActionView::Send("PONG :"@ + m.params[0])),
{
    reveal_strlit("PING");
    let (caps_after, cap_actions) = caps::negotiate(s.caps, m);
    let (s1, a1) = on_cap_actions(SessionView { caps: caps_after, ..s }, cap_actions);
    let (s2, a2) = if s1.phase == Phase::AuthenticatingSasl {
        on_sasl_message(s1, m)
    } else {
        (s1, Seq::empty())
    };
    let (state_after, events) = state::step(s2.state, m);
    let t = SessionView { state: state_after, ..s2 };
    assert(events =~= seq![EventView::Ping { token: m.params[0] }]);
    reveal_with_fuel(on_state_events, 2);
    let (s3, a3) = on_state_events(t, events);
    assert(events.drop_last() =~= Seq::empty());
    assert(a3 =~= seq![ActionView::Send("PONG :"@ + m.params[0])]);
    let all = on_message(s, m).1;
    assert(all == a1 + a2 + a3);
    assert(all[all.len() - 1] == ActionView::Send("PONG :"@ + m.params[0]));
}

/// RPL_WELCOME registers the session, whatever phase it was in, reports it ready
/// and joins every configured channel.
pub proof fn welcome_registers(s: SessionView, m: MessageView)
    requires
        m.command == CommandView::Numeric(1),
    ensures
        on_message(s, m).0.phase == Phase::Registered,
        on_message(s, m).1.contains(ActionView::SetReady(true)),
        forall|i: int|
            0 <= i < s.config.channels.len() ==> on_message(s, m).1.contains(
                ActionView::Send("JOIN "@ + #[trigger] s.config.channels[i]),
            ),
{
    let (caps_after, cap_actions) = caps::negotiate(s.caps, m);
    let (s1, a1) = on_cap_actions(SessionView { caps: caps_after, ..s }, cap_actions);
    let (s2, a2) = if s1.phase == Phase::AuthenticatingSasl {
        on_sasl_message(s1, m)
    } else {
        (s1, Seq::empty())
    };
    let (state_after, events) = state::step(s2.state, m);
    let t = SessionView { state: state_after, ..s2 };
    assert(events.len() == 1);
    reveal_with_fuel(on_state_events, 2);
    assert(events.drop_last() =~= Seq::empty());
    let (s3, a3) = on_state_events(t, events);
    assert(a3 =~= on_state_event(t, events[0]).1);
    assert(a3[0] == ActionView::SetReady(true));
    let all = on_message(s, m).1;
    let first = (a1.len() + a2.len()) as int;
    assert(all[first] == ActionView::SetReady(true));
    lemma_cap_actions_config(SessionView { caps: caps_after, ..s }, cap_actions);
    assert(t.config == s.config);
    assert forall|i: int| 0 <= i < s.config.channels.len() implies all.contains(
        ActionView::Send("JOIN "@ + #[trigger] s.config.channels[i]),
    ) by {
        assert(all[first + 2 + i] == ActionView::Send("JOIN "@ + s.config.channels[i]));
    }
}

/// SASL ends one way or the other: once the server has accepted or refused the
/// credentials, negotiation ends and the session waits for RPL_WELCOME.
pub proof fn sasl_outcome_ends_negotiation(s: SessionView, m: MessageView, n: u16)
    requires
        s.phase == Phase::AuthenticatingSasl,
        m.command == CommandView::Numeric(n),
        n == 903 || is_sasl_failure(n),
    ensures
        on_message(s, m).0.phase == Phase::AwaitingWelcome,
        on_message(s, m).1 == seq![
            ActionView::Emit(SessionEventView::SaslOutcome { succeeded: n == 903 }),
            ActionView::Send("CAP END"@),
        ],
{
    let (caps_after, cap_actions) = caps::negotiate(s.caps, m);
    assert(cap_actions =~= Seq::empty());
    let t = SessionView { caps: caps_after, ..s };
    let (s1, a1) = on_cap_actions(t, cap_actions);
    let (s2, a2) = on_sasl_message(s1, m);
    let (state_after, events) = state::step(s2.state, m);
    assert(events =~= Seq::empty());
    let a3 = on_state_events(SessionView { state: state_after, ..s2 }, events).1;
    assert(on_message(s, m).1 =~= a1 + a2 + a3);
}

} // verus!
