//! What a session does with each event, whatever phase it is in.

use crate::ircd::caps;
use crate::ircd::caps::CapActionView;
use crate::ircd::connection::ConnectionEvent;
use crate::ircd::message::{CommandView, MessageView};
use crate::ircd::mode_queue;
use crate::ircd::parser;
use crate::ircd::sasl;
use crate::ircd::session;
use crate::ircd::session::{
    ActionView, Phase, Runner, SessionAction, SessionEvent, SessionEventView, SessionView,
};
use crate::ircd::state;
use crate::ircd::state::EventView;
use crate::ircd::message_laws;
use crate::order;
use crate::text;
use vstd::prelude::*;

verus! {

// ----- messages that only the server state reads --------------------------------

/// Whether a message concerns neither the capability negotiation nor SASL.
pub open spec fn ordinary(m: MessageView) -> bool {
    &&& !m.is_command("CAP"@)
    &&& !m.is_command("AUTHENTICATE"@)
    &&& m.command matches CommandView::Numeric(n) ==> n != 410 && !(902 <= n <= 907)
}

proof fn lemma_words_are_ordinary(m: MessageView)
    ensures
        m.is_command("PRIVMSG"@) ==> ordinary(m),
        m.is_command("NOTICE"@) ==> ordinary(m),
        m.is_command("PING"@) ==> ordinary(m),
        m.is_command("JOIN"@) ==> ordinary(m),
{
    reveal_strlit("PRIVMSG");
    reveal_strlit("NOTICE");
    reveal_strlit("PING");
    reveal_strlit("JOIN");
    reveal_strlit("CAP");
    reveal_strlit("AUTHENTICATE");
    assert(text::lower("PRIVMSG"@).len() == 7);
    assert(text::lower("NOTICE"@).len() == 6);
    assert(text::lower("PING"@).len() == 4);
    assert(text::lower("JOIN"@).len() == 4);
    assert(text::lower("CAP"@).len() == 3);
    assert(text::lower("AUTHENTICATE"@).len() == 12);
}

proof fn lemma_ordinary(s: SessionView, m: MessageView)
    requires
        ordinary(m),
    ensures
        ({
            let (after, events) = state::step(s.state, m);
            session::on_message(s, m) == session::on_state_events(
                SessionView { state: after, ..s },
                events,
            )
        }),
{
    let (after, events) = state::step(s.state, m);
    let cap_actions = caps::negotiate(s.caps, m).1;
    assert(cap_actions =~= Seq::empty());
    let (s1, a1) = session::on_cap_actions(s, cap_actions);
    assert(s1 == s && a1 =~= Seq::empty());
    let all = session::on_message(s, m);
    let (s3, a3) = session::on_state_events(SessionView { state: after, ..s }, events);
    assert(all.1 =~= a3);
}

proof fn lemma_one_event(s: SessionView, events: Seq<EventView>)
    requires
        events.len() == 1,
    ensures
        session::on_state_events(s, events) == session::on_state_event(s, events[0]),
{
    reveal_with_fuel(session::on_state_events, 2);
    assert(events.drop_last() =~= Seq::empty());
    let (t, a) = session::on_state_event(s, events[0]);
    assert(session::on_state_events(s, events).1 =~= a);
}

// ----- what reaches the consumer ------------------------------------------------

/// A PRIVMSG is handed to the consumer, in every phase, with its source, target and
/// body; nothing else happens.
pub proof fn privmsg_is_delivered(
    r: &mut Runner,
    line: String,
    m: MessageView,
    out: Vec<SessionAction>,
)
    requires
        call_ensures(Runner::handle_connection_event, (r, ConnectionEvent::Line(line)), out),
        parser::parsed(line@) == Ok::<MessageView, crate::ircd::message::ParseError>(m),
        m.is_command("PRIVMSG"@),
    ensures
        final(r)@ == old(r)@,
        out@.len() == 1,
        out@[0] matches SessionAction::Emit(e) && e matches SessionEvent::Privmsg {
            from,
            target,
            body,
        } && target@ == message_laws::nth(m, 0) && body@ == message_laws::nth(m, 1) && match (from, m.source) {
            (Some(f), Some(g)) => f@ == g,
            (None, None) => true,
            _ => false,
        },
{
    let s = old(r)@;
    lemma_words_are_ordinary(m);
    lemma_ordinary(s, m);
    message_laws::privmsg_is_passed_on(s.state, m);
    lemma_one_event(s, state::step(s.state, m).1);
    let views = session::action_views(out@);
    assert(views.len() == out@.len());
    assert(views[0] == out@[0]@);
}

/// A NOTICE is handed to the consumer, in every phase, with its source, target and
/// body; nothing else happens.
pub proof fn notice_is_delivered(
    r: &mut Runner,
    line: String,
    m: MessageView,
    out: Vec<SessionAction>,
)
    requires
        call_ensures(Runner::handle_connection_event, (r, ConnectionEvent::Line(line)), out),
        parser::parsed(line@) == Ok::<MessageView, crate::ircd::message::ParseError>(m),
        m.is_command("NOTICE"@),
    ensures
        final(r)@ == old(r)@,
        out@.len() == 1,
        out@[0] matches SessionAction::Emit(e) && e matches SessionEvent::Notice {
            from,
            target,
            body,
        } && target@ == message_laws::nth(m, 0) && body@ == message_laws::nth(m, 1) && match (from, m.source) {
            (Some(f), Some(g)) => f@ == g,
            (None, None) => true,
            _ => false,
        },
{
    let s = old(r)@;
    lemma_words_are_ordinary(m);
    lemma_ordinary(s, m);
    message_laws::notice_is_passed_on(s.state, m);
    lemma_one_event(s, state::step(s.state, m).1);
    let views = session::action_views(out@);
    assert(views.len() == out@.len());
    assert(views[0] == out@[0]@);
}

/// A JOIN is handed to the consumer, in every phase, with the channel and who it was.
pub proof fn join_is_reported(
    r: &mut Runner,
    line: String,
    m: MessageView,
    out: Vec<SessionAction>,
)
    requires
        call_ensures(Runner::handle_connection_event, (r, ConnectionEvent::Line(line)), out),
        parser::parsed(line@) == Ok::<MessageView, crate::ircd::message::ParseError>(m),
        m.is_command("JOIN"@),
    ensures
        final(r)@.phase == old(r)@.phase,
        out@.len() == 1,
        out@[0] matches SessionAction::Emit(e) && e matches SessionEvent::Joined {
            channel,
            nick,
            user,
            host,
            is_self,
        } && channel@ == message_laws::nth(m, 0) && (nick@, text::opt_view(user), text::opt_view(host))
            == state::source_parts(m.source_or_empty()) && is_self == old(r)@.state.is_self(nick@),
{
    let s = old(r)@;
    lemma_words_are_ordinary(m);
    lemma_ordinary(s, m);
    message_laws::join_adds_only_its_source(s.state, m);
    let (after, events) = state::step(s.state, m);
    lemma_one_event(SessionView { state: after, ..s }, events);
    let views = session::action_views(out@);
    assert(views.len() == out@.len());
    assert(views[0] == out@[0]@);
}

/// A PING with a token is answered with that token, in every phase; one without is not.
pub proof fn ping_is_answered_with_its_token(
    r: &mut Runner,
    line: String,
    m: MessageView,
    out: Vec<SessionAction>,
)
    requires
        call_ensures(Runner::handle_connection_event, (r, ConnectionEvent::Line(line)), out),
        parser::parsed(line@) == Ok::<MessageView, crate::ircd::message::ParseError>(m),
        m.is_command("PING"@),
    ensures
        final(r)@ == old(r)@,
        m.params.len() == 0 ==> out@.len() == 0,
        m.params.len() > 0 ==> out@.len() == 1 && (out@[0] matches SessionAction::Send(l) && l@
            == "PONG :"@ + m.params[0]),
{
    let s = old(r)@;
    lemma_words_are_ordinary(m);
    lemma_ordinary(s, m);
    message_laws::ping_is_passed_on(s.state, m);
    let events = state::step(s.state, m).1;
    if m.params.len() > 0 {
        lemma_one_event(s, events);
    }
    let views = session::action_views(out@);
    assert(views.len() == out@.len());
    if out@.len() > 0 {
        assert(views[0] == out@[0]@);
    }
}

/// What a line that does not parse says is dropped.
pub proof fn unreadable_lines_are_dropped(r: &mut Runner, line: String, out: Vec<SessionAction>)
    requires
        call_ensures(Runner::handle_connection_event, (r, ConnectionEvent::Line(line)), out),
        parser::parsed(line@) is Err,
    ensures
        final(r)@ == old(r)@,
        out@.len() == 0,
{
    assert(session::action_views(out@).len() == out@.len());
}

// ----- the connection -----------------------------------------------------------

/// A connection is greeted with the negotiation, the nick and the user, in this order.
pub proof fn connection_is_greeted(r: &mut Runner, out: Vec<SessionAction>)
    requires
        call_ensures(Runner::handle_connection_event, (r, ConnectionEvent::Connected), out),
    ensures
        final(r)@ == (SessionView { phase: Phase::NegotiatingCaps, ..old(r)@ }),
        out@.len() == 3,
        out@[0] matches SessionAction::Send(l) && l@ == "CAP LS 302"@,
        out@[1] matches SessionAction::Send(l) && l@ == "NICK "@ + old(r)@.config.nick,
        out@[2] matches SessionAction::Send(l) && l@ == "USER "@ + old(r)@.config.ident
            + " 0 * :"@ + old(r)@.config.realname,
{
    let views = session::action_views(out@);
    assert(views.len() == out@.len());
    assert(views[0] == out@[0]@);
    assert(views[1] == out@[1]@);
    assert(views[2] == out@[2]@);
}

/// A lost connection is reported with its reason and delay, and nothing that was learnt
/// is kept: neither capabilities, nor channels, nor pending modes.
pub proof fn lost_connection_is_reported(
    r: &mut Runner,
    reason: String,
    delay_ms: u64,
    out: Vec<SessionAction>,
)
    requires
        call_ensures(
            Runner::handle_connection_event,
            (r, ConnectionEvent::Disconnected { reason, delay_ms }),
            out,
        ),
    ensures
        final(r)@.config == old(r)@.config,
        final(r)@.phase == Phase::Disconnected,
        final(r)@.caps.phase == caps::Phase::AwaitingLs,
        final(r)@.caps.desired == old(r)@.config.desired_caps.to_set(),
        final(r)@.caps.available == Set::<Seq<char>>::empty(),
        final(r)@.caps.acked == Set::<Seq<char>>::empty(),
        final(r)@.caps.requested == Set::<Seq<char>>::empty(),
        final(r)@.state == state::initial(),
        final(r)@.queue.dom() == Set::<Seq<char>>::empty(),
        out@.len() == 2,
        out@[0] == SessionAction::SetReady(false),
        out@[1] matches SessionAction::Emit(e) && e matches SessionEvent::Disconnected {
            reason: why,
            delay_ms: ms,
        } && why@ == reason@ && ms == delay_ms,
{
    let views = session::action_views(out@);
    assert(views.len() == out@.len());
    assert(views[0] == out@[0]@);
    assert(views[1] == out@[1]@);
}

/// RPL_WELCOME makes the session registered and ready, tells the name we got, and joins
/// each configured channel, in order; it does nothing more.
pub proof fn welcome_is_acted_on(
    r: &mut Runner,
    line: String,
    m: MessageView,
    out: Vec<SessionAction>,
)
    requires
        call_ensures(Runner::handle_connection_event, (r, ConnectionEvent::Line(line)), out),
        parser::parsed(line@) == Ok::<MessageView, crate::ircd::message::ParseError>(m),
        m.command == CommandView::Numeric(1),
    ensures
        final(r)@.phase == Phase::Registered,
        final(r)@.state.registered,
        m.params.len() > 0 ==> final(r)@.state.my_nick == Some(m.params[0]),
        out@.len() == 2 + old(r)@.config.channels.len(),
        out@[0] == SessionAction::SetReady(true),
        out@[1] matches SessionAction::Emit(e) && e matches SessionEvent::Welcomed { nick } && nick@
            == message_laws::nth(m, 0),
        forall|i: int|
            0 <= i < old(r)@.config.channels.len() ==> (#[trigger] out@[2 + i])@ == ActionView::Send(
                "JOIN "@ + old(r)@.config.channels[i],
            ),
{
    let s = old(r)@;
    lemma_ordinary(s, m);
    message_laws::welcome_names_us(s.state, m);
    let (after, events) = state::step(s.state, m);
    lemma_one_event(SessionView { state: after, ..s }, events);
    let views = session::action_views(out@);
    assert(views.len() == out@.len());
    assert(views[0] == out@[0]@);
    assert(views[1] == out@[1]@);
    assert forall|i: int| 0 <= i < s.config.channels.len() implies (#[trigger] out@[2 + i])@
        == ActionView::Send("JOIN "@ + s.config.channels[i]) by {
        assert(views[2 + i] == out@[2 + i]@);
    }
}

/// What concerns neither the negotiation, nor SASL, nor a message to someone, nor a
/// JOIN, a PING or a welcome makes the session do nothing; it stays in its phase.
pub proof fn other_messages_are_silent(s: SessionView, m: MessageView)
    requires
        ordinary(m),
        m.command != CommandView::Numeric(1),
        !m.is_command("PRIVMSG"@),
        !m.is_command("NOTICE"@),
        !m.is_command("JOIN"@),
        !m.is_command("PING"@),
    ensures
        session::on_message(s, m).0 == (SessionView { state: state::step(s.state, m).0, ..s }),
        session::on_message(s, m).1.len() == 0,
{
    lemma_ordinary(s, m);
    let (after, events) = state::step(s.state, m);
    assert(events.len() <= 1);
    if events.len() == 1 {
        lemma_one_event(SessionView { state: after, ..s }, events);
    }
}

// ----- negotiation --------------------------------------------------------------

/// When the negotiation is over, SASL begins if it was acked and we have credentials.
/// Otherwise the outcome is told and `CAP END` sent.
pub proof fn negotiation_leads_on(s: SessionView, m: MessageView)
    requires
        caps::negotiate(s.caps, m).1.len() == 1,
        caps::negotiate(s.caps, m).1[0] == CapActionView::Done,
        m.is_command("CAP"@) || m.command == CommandView::Numeric(410),
    ensures
        ({
            let (t, actions) = session::on_message(s, m);
            let acked = caps::negotiate(s.caps, m).0.acked.contains("sasl"@);
            &&& acked && s.config.sasl is Some ==> {
                &&& t.phase == Phase::AuthenticatingSasl
                &&& actions.len() == 1
                &&& actions[0] == ActionView::Send("AUTHENTICATE "@ + s.config.sasl->0.name())
            }
            &&& !acked || s.config.sasl is None ==> {
                &&& t.phase == Phase::AwaitingWelcome
                &&& actions.len() == 2
                &&& actions[0] == ActionView::Emit(SessionEventView::SaslOutcome { succeeded: false })
                &&& actions[1] == ActionView::Send("CAP END"@)
            }
            &&& t.state == s.state
        }),
{
    let (caps_after, acts) = caps::negotiate(s.caps, m);
    let u = SessionView { caps: caps_after, ..s };
    reveal_with_fuel(session::on_cap_actions, 2);
    assert(acts.drop_last() =~= Seq::empty());
    lemma_cap_is_no_news(s, m);
    let first = session::on_caps_done(u);
    assert(session::on_cap_actions(u, acts).1 =~= first.1);
    lemma_not_sasl(first.0, m);
    assert(session::on_message(s, m).1 =~= first.1);
}

/// A request of the negotiation is sent as it is, and the session stays where it was.
pub proof fn requests_are_sent(s: SessionView, m: MessageView, line: Seq<char>)
    requires
        caps::negotiate(s.caps, m).1.len() == 1,
        caps::negotiate(s.caps, m).1[0] == CapActionView::Send(line),
        m.is_command("CAP"@),
    ensures
        session::on_message(s, m).0 == (SessionView { caps: caps::negotiate(s.caps, m).0, ..s }),
        session::on_message(s, m).1.len() == 1,
        session::on_message(s, m).1[0] == ActionView::Send(line),
{
    let (caps_after, acts) = caps::negotiate(s.caps, m);
    let u = SessionView { caps: caps_after, ..s };
    reveal_with_fuel(session::on_cap_actions, 2);
    assert(acts.drop_last() =~= Seq::empty());
    lemma_cap_is_no_news(s, m);
    assert(session::on_cap_actions(u, acts).1 =~= seq![ActionView::Send(line)]);
    lemma_not_sasl(u, m);
    assert(session::on_message(s, m).1 =~= seq![ActionView::Send(line)]);
}

proof fn lemma_cap_is_no_news(s: SessionView, m: MessageView)
    requires
        m.is_command("CAP"@) || m.command == CommandView::Numeric(410),
    ensures
        state::step(s.state, m).0 == s.state,
        state::step(s.state, m).1 == Seq::<EventView>::empty(),
{
    reveal_strlit("CAP");
    assert(text::lower("CAP"@).len() == 3);
    lemma_long_words();
    if m.is_command("CAP"@) {
        assert(!m.is_command("PING"@) && !m.is_command("JOIN"@));
    }
    message_laws::other_messages_do_nothing(s.state, m);
    assert(state::step(s.state, m).1 =~= Seq::<EventView>::empty());
}

proof fn lemma_long_words()
    ensures
        text::lower("PING"@).len() == 4,
        text::lower("JOIN"@).len() == 4,
        text::lower("PART"@).len() == 4,
        text::lower("QUIT"@).len() == 4,
        text::lower("KICK"@).len() == 4,
        text::lower("NICK"@).len() == 4,
        text::lower("MODE"@).len() == 4,
        text::lower("TOPIC"@).len() == 5,
        text::lower("PRIVMSG"@).len() == 7,
        text::lower("NOTICE"@).len() == 6,
        text::lower("AUTHENTICATE"@).len() == 12,
{
    reveal_strlit("PING");
    reveal_strlit("JOIN");
    reveal_strlit("PART");
    reveal_strlit("QUIT");
    reveal_strlit("KICK");
    reveal_strlit("NICK");
    reveal_strlit("MODE");
    reveal_strlit("TOPIC");
    reveal_strlit("PRIVMSG");
    reveal_strlit("NOTICE");
    reveal_strlit("AUTHENTICATE");
}

proof fn lemma_not_sasl(s: SessionView, m: MessageView)
    requires
        m.is_command("CAP"@) || m.command == CommandView::Numeric(410),
    ensures
        session::on_sasl_message(s, m).0 == s,
        session::on_sasl_message(s, m).1 == Seq::<ActionView>::empty(),
{
    reveal_strlit("CAP");
    assert(text::lower("CAP"@).len() == 3);
    lemma_long_words();
}

// ----- SASL ---------------------------------------------------------------------

/// While SASL is under way, `AUTHENTICATE +` is answered with the lines that carry our
/// credentials, in order; any other AUTHENTICATE with nothing.
pub proof fn credentials_are_sent_when_asked(s: SessionView, m: MessageView)
    requires
        s.phase == Phase::AuthenticatingSasl,
        m.is_command("AUTHENTICATE"@),
    ensures
        ({
            let (t, actions) = session::on_message(s, m);
            let asked = m.params.len() > 0 && m.params[0] == "+"@;
            &&& t == s
            &&& s.config.sasl is Some && asked ==> {
                let lines = sasl::payload_lines(s.config.sasl->0.payload());
                &&& actions.len() == lines.len()
                &&& forall|i: int|
                    0 <= i < lines.len() ==> #[trigger] actions[i] == ActionView::Send(lines[i])
            }
            &&& !asked || s.config.sasl is None ==> actions.len() == 0
        }),
{
    reveal_strlit("CAP");
    assert(text::lower("CAP"@).len() == 3);
    lemma_long_words();
    message_laws::other_messages_do_nothing(s.state, m);
    let acts = caps::negotiate(s.caps, m).1;
    assert(acts =~= Seq::empty());
    let (s1, a1) = session::on_cap_actions(s, acts);
    assert(s1 == s && a1 =~= Seq::empty());
    let events = state::step(s.state, m).1;
    assert(events =~= Seq::empty());
    assert(session::on_message(s, m).1 =~= session::on_sasl_message(s, m).1);
}

/// Numeric 903 is success; 902 and 904 to 907 are failure. Either way the outcome is
/// told, `CAP END` is sent and the session waits to be welcomed.
pub proof fn sasl_numerics_end_it(s: SessionView, m: MessageView, n: u16)
    requires
        s.phase == Phase::AuthenticatingSasl,
        m.command == CommandView::Numeric(n),
        902 <= n <= 907,
    ensures
        session::on_message(s, m).0 == (SessionView { phase: Phase::AwaitingWelcome, ..s }),
        session::on_message(s, m).1.len() == 2,
        session::on_message(s, m).1[0] == ActionView::Emit(
            SessionEventView::SaslOutcome { succeeded: n == 903 },
        ),
        session::on_message(s, m).1[1] == ActionView::Send("CAP END"@),
{
    session::sasl_outcome_ends_negotiation(s, m, n);
    message_laws::other_messages_do_nothing(s.state, m);
    let acts = caps::negotiate(s.caps, m).1;
    assert(acts =~= Seq::empty());
    assert(state::step(s.state, m).1 =~= Seq::<EventView>::empty());
}

/// Outside SASL its numerics and AUTHENTICATE do nothing.
pub proof fn sasl_outside_its_phase_is_ignored(s: SessionView, m: MessageView)
    requires
        s.phase != Phase::AuthenticatingSasl,
        m.is_command("AUTHENTICATE"@) || (m.command matches CommandView::Numeric(n) && 902 <= n
            <= 907),
    ensures
        session::on_message(s, m).0 == s,
        session::on_message(s, m).1.len() == 0,
{
    reveal_strlit("CAP");
    assert(text::lower("CAP"@).len() == 3);
    lemma_long_words();
    message_laws::other_messages_do_nothing(s.state, m);
    assert(caps::negotiate(s.caps, m).1 =~= Seq::empty());
    assert(state::step(s.state, m).1 =~= Seq::<EventView>::empty());
    assert(session::on_message(s, m).1 =~= Seq::empty());
}

// ----- the tick -----------------------------------------------------------------

/// On a tick every line that the mode queue hands out is sent, in order, and the rest of
/// the session stays as it is.
pub proof fn tick_sends_what_is_due(r: &mut Runner, out: Vec<SessionAction>)
    requires
        call_ensures(Runner::flush_mode_queue, (r,), out),
    ensures
        ({
            let q = old(r)@.queue;
            let due = mode_queue::poll_output(q, order::listing(q.dom()), true);
            &&& out@.len() == due.len()
            &&& forall|i: int|
                0 <= i < due.len() ==> (#[trigger] out@[i])@ == ActionView::Send(due[i].1)
            &&& final(r)@ == (SessionView { queue: mode_queue::after_poll(q, true), ..old(r)@ })
        }),
{
    let views = session::action_views(out@);
    assert(views.len() == out@.len());
    assert forall|i: int| 0 <= i < out@.len() implies (#[trigger] out@[i])@ == views[i] by {}
}

} // verus!
