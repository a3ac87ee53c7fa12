//! Watching ops: cookie verification and mass-op detection.
//!
//! Every node feeds what it sees on channels into an observer:
//!
//! * A cookie notice certifies a pending `MODE +o` of the same channel and nick,
//!   if it comes within [`COOKIE_GRACE_MS`]. An op that no cookie certified in
//!   time is reported: the bot that made it may have been hijacked.
//! * A source that makes [`MASS_OP_THRESHOLD`] ops within [`MASS_OP_WINDOW_MS`]
//!   is reported.
//!
//! Reports are kept until they are taken.

use crate::model::cookies;
use crate::model::cookies::{Cookie, CookieErrorView, CookieView, GuardView, ReplayGuard};
use crate::model::time;
use crate::text;
use crate::views;
use std::collections::VecDeque;
use vstd::prelude::*;

verus! {

/// How long after an op a cookie certifies it, in milliseconds.
pub const COOKIE_GRACE_MS: i64 = 5_000;

/// Number of ops within the window that is reported.
pub const MASS_OP_THRESHOLD: usize = 5;

/// Window of the mass-op counter, in milliseconds.
pub const MASS_OP_WINDOW_MS: i64 = 10_000;

/// Pause between two sweeps, in milliseconds.
pub const SWEEP_INTERVAL_MS: i64 = 1_000;

/// What the keys of channels are derived from.
#[derive(Debug, Clone, PartialEq, Eq)]
pub struct ObserverContext {
    pub node_id: String,
    pub mesh_psk: Vec<u8>,
}

/// An op that no cookie has certified yet.
#[derive(Debug, Clone, PartialEq, Eq)]
pub struct PendingOp {
    pub channel: String,
    pub target_nick: String,
    /// `nick!user@host`, or a server.
    pub source: String,
    pub ts_ms: i64,
}

/// What a [`PendingOp`] says.
pub struct OpView {
    pub channel: Seq<char>,
    pub target_nick: Seq<char>,
    pub source: Seq<char>,
    pub ts_ms: i64,
}

impl View for PendingOp {
    type V = OpView;

    open spec fn view(&self) -> OpView {
        OpView {
            channel: self.channel@,
            target_nick: self.target_nick@,
            source: self.source@,
            ts_ms: self.ts_ms,
        }
    }
}

/// An op that was seen lately.
#[derive(Debug, Clone, PartialEq, Eq)]
pub struct OpEvent {
    pub source: String,
    pub channel: String,
    pub ts_ms: i64,
}

/// What an [`OpEvent`] says.
pub struct SeenView {
    pub source: Seq<char>,
    pub channel: Seq<char>,
    pub ts_ms: i64,
}

impl View for OpEvent {
    type V = SeenView;

    open spec fn view(&self) -> SeenView {
        SeenView { source: self.source@, channel: self.channel@, ts_ms: self.ts_ms }
    }
}

/// A report of an observer.
#[derive(Debug, Clone, PartialEq, Eq)]
pub enum Alert {
    /// Many ops from one source within the window.
    MassOp { source: String, channel: String, count: usize },
    /// No cookie certified the op in time.
    Uncertified { op: PendingOp, now_ms: i64 },
}

/// What an [`Alert`] says.
pub enum AlertView {
    MassOp { source: Seq<char>, channel: Seq<char>, count: nat },
    Uncertified { op: OpView, now_ms: i64 },
}

impl View for Alert {
    type V = AlertView;

    open spec fn view(&self) -> AlertView {
        match *self {
            Alert::MassOp { source, channel, count } => AlertView::MassOp {
                source: source@,
                channel: channel@,
                count: count as nat,
            },
            Alert::Uncertified { op, now_ms } => AlertView::Uncertified { op: op@, now_ms },
        }
    }
}

/// Watches ops and cookies.
#[derive(Debug)]
pub struct OpObserver {
    pending: VecDeque<PendingOp>,
    op_history: VecDeque<OpEvent>,
    replay: ReplayGuard,
    last_sweep_ms: i64,
    alerts: Vec<Alert>,
}

/// The state of an [`OpObserver`].
pub struct ObserverView {
    pub pending: Seq<OpView>,
    pub history: Seq<SeenView>,
    pub guard: GuardView,
    pub last_sweep_ms: i64,
    pub alerts: Seq<AlertView>,
}

impl View for OpObserver {
    type V = ObserverView;

    closed spec fn view(&self) -> ObserverView {
        ObserverView {
            pending: views::list(self.pending@),
            history: views::list(self.op_history@),
            guard: self.replay@,
            last_sweep_ms: self.last_sweep_ms,
            alerts: views::list(self.alerts@),
        }
    }
}

// ----- sweeping -----------------------------------------------------------------

/// How many of the oldest ops are past the grace period.
pub open spec fn stale_ops(p: Seq<OpView>, now: i64) -> int
    decreases p.len(),
{
    if p.len() == 0 || now - p[0].ts_ms <= COOKIE_GRACE_MS {
        0
    } else {
        1 + stale_ops(p.drop_first(), now)
    }
}

/// How many of the oldest entries are outside the window.
pub open spec fn stale_history(h: Seq<SeenView>, now: i64) -> int
    decreases h.len(),
{
    if h.len() == 0 || now - h[0].ts_ms <= MASS_OP_WINDOW_MS {
        0
    } else {
        1 + stale_history(h.drop_first(), now)
    }
}

/// The reports of uncertified ops.
pub open spec fn uncertified(p: Seq<OpView>, now: i64) -> Seq<AlertView> {
    Seq::new(p.len(), |i: int| AlertView::Uncertified { op: p[i], now_ms: now })
}

/// The state after a sweep at `now`, unless the last one was too recent.
pub open spec fn swept(s: ObserverView, now: i64) -> ObserverView {
    if now - s.last_sweep_ms < SWEEP_INTERVAL_MS {
        s
    } else {
        let n = stale_ops(s.pending, now);
        ObserverView {
            pending: s.pending.skip(n),
            history: s.history.skip(stale_history(s.history, now)),
            guard: s.guard,
            last_sweep_ms: now,
            alerts: s.alerts + uncertified(s.pending.take(n), now),
        }
    }
}

proof fn lemma_stale_ops(p: Seq<OpView>, now: i64)
    ensures
        0 <= stale_ops(p, now) <= p.len(),
    decreases p.len(),
{
    if p.len() > 0 {
        lemma_stale_ops(p.drop_first(), now);
    }
}

proof fn lemma_stale_history(h: Seq<SeenView>, now: i64)
    ensures
        0 <= stale_history(h, now) <= h.len(),
    decreases h.len(),
{
    if h.len() > 0 {
        lemma_stale_history(h.drop_first(), now);
    }
}

// ----- ops ----------------------------------------------------------------------

/// Whether an entry counts for `source` at `now`.
pub open spec fn counts(e: SeenView, source: Seq<char>, now: i64) -> bool {
    e.source == source && now - e.ts_ms <= MASS_OP_WINDOW_MS
}

/// How many entries count for `source` at `now`.
pub open spec fn recent(h: Seq<SeenView>, source: Seq<char>, now: i64) -> nat
    decreases h.len(),
{
    if h.len() == 0 {
        0
    } else {
        recent(h.drop_last(), source, now) + if counts(h.last(), source, now) {
            1nat
        } else {
            0
        }
    }
}

/// The state after an op was seen, before the sweep.
pub open spec fn noted(s: ObserverView, op: OpView) -> ObserverView {
    let history = s.history.push(
        SeenView { source: op.source, channel: op.channel, ts_ms: op.ts_ms },
    );
    let count = recent(history, op.source, op.ts_ms);
    ObserverView {
        pending: s.pending.push(op),
        history,
        alerts: if count >= MASS_OP_THRESHOLD {
            s.alerts.push(AlertView::MassOp { source: op.source, channel: op.channel, count })
        } else {
            s.alerts
        },
        ..s
    }
}

/// The state after an op was seen.
pub open spec fn recorded(s: ObserverView, op: OpView) -> ObserverView {
    swept(noted(s, op), op.ts_ms)
}

// ----- cookies ------------------------------------------------------------------

/// Whether a cookie for `nick` on `channel` certifies the op at `now`.
pub open spec fn certifies(op: OpView, channel: Seq<char>, nick: Seq<char>, now: i64) -> bool {
    op.channel == channel && op.target_nick == nick && now - op.ts_ms <= COOKIE_GRACE_MS
}

/// Where the first op stands that a cookie certifies; the length if there is
/// none.
pub open spec fn certified_op(
    p: Seq<OpView>,
    channel: Seq<char>,
    nick: Seq<char>,
    now: i64,
) -> int
    decreases p.len(),
{
    if p.len() == 0 || certifies(p[0], channel, nick, now) {
        0
    } else {
        1 + certified_op(p.drop_first(), channel, nick, now)
    }
}

proof fn lemma_certified_op(p: Seq<OpView>, channel: Seq<char>, nick: Seq<char>, now: i64)
    ensures
        ({
            let i = certified_op(p, channel, nick, now);
            &&& 0 <= i <= p.len()
            &&& i < p.len() ==> certifies(p[i], channel, nick, now)
        }),
    decreases p.len(),
{
    if p.len() > 0 && !certifies(p[0], channel, nick, now) {
        let rest = p.drop_first();
        lemma_certified_op(rest, channel, nick, now);
        let i = certified_op(rest, channel, nick, now);
        if i < rest.len() {
            assert(rest[i] == p[i + 1]);
        }
    }
}

/// What a genuine cookie for `nick` on `channel` does, and whether it certified
/// an op.
pub open spec fn cookie_seen(
    s: ObserverView,
    channel: Seq<char>,
    nick: Seq<char>,
    now: i64,
) -> (ObserverView, bool) {
    let i = certified_op(s.pending, channel, nick, now);
    if i < s.pending.len() {
        (swept(ObserverView { pending: s.pending.remove(i), ..s }, now), true)
    } else {
        (swept(s, now), false)
    }
}

/// What a cookie notice does, given the judgement on its cookie.
pub open spec fn notice_seen(
    s: ObserverView,
    channel: Seq<char>,
    verdict: Result<CookieView, CookieErrorView>,
    now: i64,
) -> (ObserverView, bool) {
    match verdict {
        Ok(c) => cookie_seen(
            ObserverView { guard: cookies::guard_after(s.guard, verdict), ..s },
            channel,
            c.nick,
            now,
        ),
        Err(_) => (s, false),
    }
}

impl OpObserver {
    /// Nothing seen yet. The first event sweeps.
    #[must_use]
    pub fn new() -> (o: Self)
        ensures
            o@ == (ObserverView {
                pending: Seq::empty(),
                history: Seq::empty(),
                guard: GuardView { capacity: 4096, seen: Seq::empty() },
                last_sweep_ms: i64::MIN,
                alerts: Seq::empty(),
            }),
    {
        let o = OpObserver {
            pending: VecDeque::new(),
            op_history: VecDeque::new(),
            replay: ReplayGuard::new(),
            last_sweep_ms: i64::MIN,
            alerts: Vec::new(),
        };
        assert(o@.pending =~= Seq::empty());
        assert(o@.history =~= Seq::empty());
        assert(o@.alerts =~= Seq::empty());
        o
    }

    /// The ops that no cookie has certified yet, oldest first.
    pub fn pending(&self) -> (v: &VecDeque<PendingOp>)
        ensures
            views::list(v@) == self@.pending,
    {
        &self.pending
    }

    /// The ops seen lately, oldest first.
    pub fn op_history(&self) -> (v: &VecDeque<OpEvent>)
        ensures
            views::list(v@) == self@.history,
    {
        &self.op_history
    }

    /// The reports made since the last call.
    pub fn take_alerts(&mut self) -> (v: Vec<Alert>)
        ensures
            views::list(v@) == old(self)@.alerts,
            final(self)@ == (ObserverView { alerts: Seq::empty(), ..old(self)@ }),
    {
        let mut v: Vec<Alert> = Vec::new();
        std::mem::swap(&mut v, &mut self.alerts);
        assert(self@.alerts =~= Seq::empty());
        v
    }

    /// Record a `MODE +o target_nick` on `channel` by `source`, seen at
    /// `now_ms`.
    pub fn record_op(&mut self, channel: &str, target_nick: &str, source: &str, now_ms: i64)
        ensures
            final(self)@ == recorded(
                old(self)@,
                OpView {
                    channel: channel@,
                    target_nick: target_nick@,
                    source: source@,
                    ts_ms: now_ms,
                },
            ),
    {
        let op = PendingOp {
            channel: text::owned(channel),
            target_nick: text::owned(target_nick),
            source: text::owned(source),
            ts_ms: now_ms,
        };
        let seen = OpEvent {
            source: text::owned(source),
            channel: text::owned(channel),
            ts_ms: now_ms,
        };
        proof {
            views::list_push(self.pending@, op);
            views::list_push(self.op_history@, seen);
        }
        self.pending.push_back(op);
        self.op_history.push_back(seen);
        self.check_mass_op(source, channel, now_ms);
        self.maybe_sweep(now_ms);
    }

    fn check_mass_op(&mut self, source: &str, channel: &str, now_ms: i64)
        ensures
            ({
                let count = recent(old(self)@.history, source@, now_ms);
                final(self)@ == if count >= MASS_OP_THRESHOLD {
                    ObserverView {
                        alerts: old(self)@.alerts.push(
                            AlertView::MassOp { source: source@, channel: channel@, count },
                        ),
                        ..old(self)@
                    }
                } else {
                    old(self)@
                }
            }),
    {
        let ghost h = self@.history;
        let mut count: usize = 0;
        let mut i: usize = 0;
        assert(h.take(0) =~= Seq::empty());
        while i < self.op_history.len()
            invariant
                i <= self.op_history@.len(),
                count <= i,
                h == views::list(self.op_history@),
                self@ == old(self)@,
                count == recent(h.take(i as int), source@, now_ms),
            decreases self.op_history@.len() - i,
        {
            let e = &self.op_history[i];
            proof {
                assert(h.take(i + 1).drop_last() =~= h.take(i as int));
                assert(h.take(i + 1).last() == e@);
            }
            let age: i128 = now_ms as i128 - e.ts_ms as i128;
            if text::str_eq(e.source.as_str(), source) && age <= MASS_OP_WINDOW_MS as i128 {
                count = count + 1;
            }
            i = i + 1;
        }
        assert(h.take(h.len() as int) =~= h);
        if count >= MASS_OP_THRESHOLD {
            let alert = Alert::MassOp {
                source: text::owned(source),
                channel: text::owned(channel),
                count,
            };
            proof {
                views::list_push(self.alerts@, alert);
            }
            self.alerts.push(alert);
        }
    }

    /// Try to certify a pending op with a cookie notice; whether one was
    /// certified. The cookie is judged by the clock.
    pub fn record_cookie_notice(
        &mut self,
        channel: &str,
        wire: &str,
        ctx: &ObserverContext,
        now_ms: i64,
    ) -> (b: bool)
        ensures
            exists|clock: i64|
                time::is_reading(clock) && (*final(self))@ == notice_seen(
                    old(self)@,
                    channel@,
                    #[trigger] cookies::judge(
                        wire@,
                        cookies::key_of(ctx.mesh_psk@, channel@),
                        old(self)@.guard,
                        clock,
                    ),
                    now_ms,
                ).0 && b == notice_seen(
                    old(self)@,
                    channel@,
                    cookies::judge(
                        wire@,
                        cookies::key_of(ctx.mesh_psk@, channel@),
                        old(self)@.guard,
                        clock,
                    ),
                    now_ms,
                ).1,
    {
        let clock = time::now_ms();
        self.record_cookie_notice_at(channel, wire, ctx, now_ms, clock)
    }

    /// Try to certify a pending op with a cookie notice, judging the cookie at
    /// the time `clock_ms`.
    pub fn record_cookie_notice_at(
        &mut self,
        channel: &str,
        wire: &str,
        ctx: &ObserverContext,
        now_ms: i64,
        clock_ms: i64,
    ) -> (b: bool)
        ensures
            (final(self)@, b) == notice_seen(
                old(self)@,
                channel@,
                cookies::judge(
                    wire@,
                    cookies::key_of(ctx.mesh_psk@, channel@),
                    old(self)@.guard,
                    clock_ms,
                ),
                now_ms,
            ),
    {
        let key = cookies::derive_channel_key(ctx.mesh_psk.as_slice(), channel);
        match cookies::verify_at(wire, &key, &mut self.replay, clock_ms) {
            Ok(cookie) => self.record_cookie(channel, &cookie, now_ms),
            Err(_) => false,
        }
    }

    /// Try to certify a pending op with a genuine cookie.
    pub fn record_cookie(&mut self, channel: &str, cookie: &Cookie, now_ms: i64) -> (b: bool)
        ensures
            (final(self)@, b) == cookie_seen(old(self)@, channel@, cookie@.nick, now_ms),
    {
        let ghost p = self@.pending;
        let ghost nick = cookie@.nick;
        let mut i: usize = 0;
        assert(p.skip(0) =~= p);
        while i < self.pending.len()
            invariant
                i <= self.pending@.len(),
                p == views::list(self.pending@),
                nick == cookie@.nick,
                self@ == old(self)@,
                p == self@.pending,
                certified_op(p, channel@, nick, now_ms) == i + certified_op(
                    p.skip(i as int),
                    channel@,
                    nick,
                    now_ms,
                ),
            decreases self.pending@.len() - i,
        {
            let op = &self.pending[i];
            proof {
                assert(p.skip(i as int)[0] == op@);
                assert(p.skip(i as int).drop_first() =~= p.skip(i + 1));
            }
            let age: i128 = now_ms as i128 - op.ts_ms as i128;
            if text::str_eq(op.channel.as_str(), channel) && text::str_eq(
                op.target_nick.as_str(),
                cookie.target_nick.as_str(),
            ) && age <= COOKIE_GRACE_MS as i128 {
                let ghost before = self.pending@;
                let _ = self.pending.remove(i);
                assert(views::list(self.pending@) =~= p.remove(i as int));
                self.maybe_sweep(now_ms);
                return true;
            }
            i = i + 1;
        }
        self.maybe_sweep(now_ms);
        false
    }

    /// Report and drop the ops that are past the grace period, and forget the
    /// history outside the window, unless that was done a moment ago.
    pub fn maybe_sweep(&mut self, now_ms: i64)
        ensures
            final(self)@ == swept(old(self)@, now_ms),
    {
        let since: i128 = now_ms as i128 - self.last_sweep_ms as i128;
        if since < SWEEP_INTERVAL_MS as i128 {
            return;
        }
        self.last_sweep_ms = now_ms;
        let ghost p = self@.pending;
        let ghost h = self@.history;
        let ghost n = stale_ops(p, now_ms);
        let ghost mut gone: int = 0;
        proof {
            lemma_stale_ops(p, now_ms);
            lemma_stale_history(h, now_ms);
            assert(p.skip(0) =~= p);
            assert(uncertified(p.take(0), now_ms) =~= Seq::empty());
            assert(self@.alerts =~= self@.alerts + uncertified(p.take(0), now_ms));
        }
        while self.pending.len() > 0 && now_ms as i128 - self.pending[0].ts_ms as i128
            > COOKIE_GRACE_MS as i128
            invariant
                0 <= gone <= p.len(),
                p == old(self)@.pending,
                views::list(self.pending@) == p.skip(gone),
                n == stale_ops(p, now_ms),
                n == gone + stale_ops(p.skip(gone), now_ms),
                self@ == (ObserverView {
                    pending: p.skip(gone),
                    alerts: old(self)@.alerts + uncertified(p.take(gone), now_ms),
                    last_sweep_ms: now_ms,
                    ..old(self)@
                }),
            decreases self.pending@.len(),
        {
            proof {
                assert(p.skip(gone)[0] == self.pending@[0]@);
                assert(p.skip(gone).drop_first() =~= p.skip(gone + 1));
            }
            let expired = self.pending.pop_front().unwrap();
            let alert = Alert::Uncertified { op: expired, now_ms };
            proof {
                assert(expired@ == p[gone]);
                assert(views::list(self.pending@) =~= p.skip(gone + 1));
                views::list_push(self.alerts@, alert);
                assert(uncertified(p.take(gone + 1), now_ms) =~= uncertified(
                    p.take(gone),
                    now_ms,
                ).push(alert@));
                gone = gone + 1;
            }
            self.alerts.push(alert);
            assert(self@.alerts =~= old(self)@.alerts + uncertified(p.take(gone), now_ms));
        }
        proof {
            if self.pending@.len() > 0 {
                assert(p.skip(gone)[0] == self.pending@[0]@);
            }
            assert(stale_ops(p.skip(gone), now_ms) == 0);
            assert(gone == n);
        }
        let ghost mut cut: int = 0;
        assert(h.skip(0) =~= h);
        while self.op_history.len() > 0 && now_ms as i128 - self.op_history[0].ts_ms as i128
            > MASS_OP_WINDOW_MS as i128
            invariant
                0 <= cut <= h.len(),
                h == old(self)@.history,
                views::list(self.op_history@) == h.skip(cut),
                stale_history(h, now_ms) == cut + stale_history(h.skip(cut), now_ms),
                self@ == (ObserverView {
                    pending: p.skip(n),
                    history: h.skip(cut),
                    alerts: old(self)@.alerts + uncertified(p.take(n), now_ms),
                    last_sweep_ms: now_ms,
                    ..old(self)@
                }),
            decreases self.op_history@.len(),
        {
            proof {
                assert(h.skip(cut)[0] == self.op_history@[0]@);
                assert(h.skip(cut).drop_first() =~= h.skip(cut + 1));
            }
            let _ = self.op_history.pop_front();
            proof {
                assert(views::list(self.op_history@) =~= h.skip(cut + 1));
                cut = cut + 1;
            }
        }
        proof {
            if self.op_history@.len() > 0 {
                assert(h.skip(cut)[0] == self.op_history@[0]@);
            }
            assert(stale_history(h.skip(cut), now_ms) == 0);
        }
    }
}

impl Default for OpObserver {
    /// Nothing seen yet.
    fn default() -> (o: Self)
        ensures
            o@ == (ObserverView {
                pending: Seq::empty(),
                history: Seq::empty(),
                guard: GuardView { capacity: 4096, seen: Seq::empty() },
                last_sweep_ms: i64::MIN,
                alerts: Seq::empty(),
            }),
    {
        OpObserver::new()
    }
}

/// The cookie in a notice, if there is one: what follows `shade-cookie/`, white
/// space around the notice aside.
pub open spec fn cookie_wire(body: Seq<char>) -> Option<Seq<char>> {
    let t = text::trimmed(body);
    if text::starts_with(t, "shade-cookie/"@) {
        Some(t.skip("shade-cookie/"@.len() as int))
    } else {
        None
    }
}

/// The cookie in a notice, if there is one.
#[must_use]
pub fn extract_cookie_wire(body: &str) -> (r: Option<&str>)
    ensures
        text::opt_str_view(r) == cookie_wire(body@),
{
    text::strip_prefix(text::trim(body), "shade-cookie/")
}

// ----- laws ------------------------------------------------------------------

/// Nothing is lost in a sweep: what leaves the pending ops is reported, and
/// nothing else.
pub proof fn sweep_reports_what_it_drops(s: ObserverView, now: i64)
    ensures
        ({
            let t = swept(s, now);
            let n = s.pending.len() - t.pending.len();
            &&& n >= 0
            &&& t.pending == s.pending.skip(n)
            &&& t.alerts == s.alerts + uncertified(s.pending.take(n), now)
        }),
{
    lemma_stale_ops(s.pending, now);
    if now - s.last_sweep_ms < SWEEP_INTERVAL_MS {
        assert(s.pending.skip(0) =~= s.pending);
        assert(uncertified(s.pending.take(0), now) =~= Seq::empty());
        assert(s.alerts + uncertified(s.pending.take(0), now) =~= s.alerts);
    }
}

/// A second sweep at the same time does nothing.
pub proof fn sweep_is_idempotent(s: ObserverView, now: i64)
    ensures
        swept(swept(s, now), now) == swept(s, now),
{
}

/// Where ops are pending in the order in which they were seen, a sweep leaves
/// only those within the grace period.
pub proof fn sweep_leaves_only_fresh_ops(s: ObserverView, now: i64)
    requires
        now - s.last_sweep_ms >= SWEEP_INTERVAL_MS,
        forall|i: int, j: int|
            0 <= i <= j < s.pending.len() ==> s.pending[i].ts_ms <= s.pending[j].ts_ms,
    ensures
        forall|i: int|
            0 <= i < swept(s, now).pending.len() ==> now - (#[trigger] swept(
                s,
                now,
            ).pending[i]).ts_ms <= COOKIE_GRACE_MS,
{
    lemma_stale_ops(s.pending, now);
    lemma_first_kept(s.pending, now);
    let n = stale_ops(s.pending, now);
    assert forall|i: int| 0 <= i < swept(s, now).pending.len() implies now - (#[trigger] swept(
        s,
        now,
    ).pending[i]).ts_ms <= COOKIE_GRACE_MS by {
        assert(s.pending[n].ts_ms <= s.pending[n + i].ts_ms);
    }
}

proof fn lemma_first_kept(p: Seq<OpView>, now: i64)
    ensures
        stale_ops(p, now) < p.len() ==> now - p[stale_ops(p, now)].ts_ms <= COOKIE_GRACE_MS,
    decreases p.len(),
{
    if p.len() > 0 && now - p[0].ts_ms > COOKIE_GRACE_MS {
        let rest = p.drop_first();
        lemma_stale_ops(rest, now);
        lemma_first_kept(rest, now);
        let n = stale_ops(rest, now);
        if n < rest.len() {
            assert(rest[n] == p[n + 1]);
        }
    }
}

/// A cookie certifies an op that was pending for the same nick on the same
/// channel, within the grace period, and no other.
pub proof fn cookie_certifies_its_own_op(
    s: ObserverView,
    channel: Seq<char>,
    nick: Seq<char>,
    now: i64,
)
    ensures
        cookie_seen(s, channel, nick, now).1 <==> exists|i: int|
            0 <= i < s.pending.len() && certifies(#[trigger] s.pending[i], channel, nick, now),
{
    lemma_certified_op(s.pending, channel, nick, now);
    let k = certified_op(s.pending, channel, nick, now);
    if k == s.pending.len() {
        assert forall|i: int| 0 <= i < s.pending.len() implies !certifies(
            #[trigger] s.pending[i],
            channel,
            nick,
            now,
        ) by {
            lemma_before_certified(s.pending, channel, nick, now, i);
        }
    }
}

proof fn lemma_before_certified(
    p: Seq<OpView>,
    channel: Seq<char>,
    nick: Seq<char>,
    now: i64,
    i: int,
)
    requires
        0 <= i < p.len(),
        i < certified_op(p, channel, nick, now),
    ensures
        !certifies(p[i], channel, nick, now),
    decreases p.len(),
{
    if i > 0 {
        let rest = p.drop_first();
        lemma_before_certified(rest, channel, nick, now, i - 1);
        assert(rest[i - 1] == p[i]);
    }
}

/// A notice whose cookie is not genuine changes nothing.
pub proof fn bad_cookie_changes_nothing(
    s: ObserverView,
    channel: Seq<char>,
    verdict: Result<CookieView, CookieErrorView>,
    now: i64,
)
    requires
        verdict is Err,
    ensures
        notice_seen(s, channel, verdict, now) == (s, false),
{
}

} // verus!
