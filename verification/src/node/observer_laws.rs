//! What an observer of ops reports, and what it lets pass.

use crate::model::cookies::Cookie;
use crate::node::op_observer;
use crate::node::op_observer::{
    Alert, AlertView, ObserverContext, ObserverView, OpObserver, OpView, SeenView,
};
use crate::text;
use crate::views;
use vstd::prelude::*;

verus! {

/// Between two sweeps an op that is seen waits for its cookie, behind those that wait
/// already, and is remembered.
pub proof fn seen_op_is_pending(
    o: &mut OpObserver,
    channel: &str,
    nick: &str,
    source: &str,
    now: i64,
)
    requires
        call_ensures(OpObserver::record_op, (o, channel, nick, source, now), ()),
        now - old(o)@.last_sweep_ms < 1_000,
    ensures
        final(o)@.pending == old(o)@.pending.push(
            OpView { channel: channel@, target_nick: nick@, source: source@, ts_ms: now },
        ),
        final(o)@.history == old(o)@.history.push(
            SeenView { source: source@, channel: channel@, ts_ms: now },
        ),
        final(o)@.guard == old(o)@.guard,
        final(o)@.last_sweep_ms == old(o)@.last_sweep_ms,
{
}

/// Whenever it is seen, an op is either waiting or was reported: nothing that waited, and
/// no op that was just seen, is lost.
pub proof fn no_op_is_lost(o: &mut OpObserver, channel: &str, nick: &str, source: &str, now: i64)
    requires
        call_ensures(OpObserver::record_op, (o, channel, nick, source, now), ()),
    ensures
        ({
            let op = OpView {
                channel: channel@,
                target_nick: nick@,
                source: source@,
                ts_ms: now,
            };
            let all = old(o)@.pending.push(op);
            let gone = all.len() - final(o)@.pending.len();
            &&& 0 <= gone <= all.len()
            &&& final(o)@.pending == all.skip(gone)
            &&& forall|i: int|
                0 <= i < gone ==> final(o)@.alerts.contains(
                    AlertView::Uncertified { op: #[trigger] all[i], now_ms: now },
                )
        }),
{
    let op = OpView { channel: channel@, target_nick: nick@, source: source@, ts_ms: now };
    let mid = op_observer::noted(old(o)@, op);
    op_observer::sweep_reports_what_it_drops(mid, now);
    let all = old(o)@.pending.push(op);
    let gone = all.len() - final(o)@.pending.len();
    assert forall|i: int| 0 <= i < gone implies final(o)@.alerts.contains(
        AlertView::Uncertified { op: #[trigger] all[i], now_ms: now },
    ) by {
        assert(final(o)@.alerts[mid.alerts.len() + i] == (AlertView::Uncertified {
            op: all[i],
            now_ms: now,
        }));
    }
}

/// The fifth op of a source within ten seconds is reported with their number, and so is
/// each one after it; fewer are not.
pub proof fn mass_ops_are_reported(s: ObserverView, op: OpView)
    ensures
        ({
            let before = op_observer::recent(s.history, op.source, op.ts_ms);
            let t = op_observer::noted(s, op);
            &&& before + 1 >= 5 ==> t.alerts == s.alerts.push(
                AlertView::MassOp {
                    source: op.source,
                    channel: op.channel,
                    count: (before + 1) as nat,
                },
            )
            &&& before + 1 < 5 ==> t.alerts == s.alerts
        }),
{
    let e = SeenView { source: op.source, channel: op.channel, ts_ms: op.ts_ms };
    assert(s.history.push(e).drop_last() =~= s.history);
}

/// What an op does is to note it and then to sweep.
pub proof fn op_is_noted_then_swept(
    o: &mut OpObserver,
    channel: &str,
    nick: &str,
    source: &str,
    now: i64,
)
    requires
        call_ensures(OpObserver::record_op, (o, channel, nick, source, now), ()),
    ensures
        ({
            let op = OpView {
                channel: channel@,
                target_nick: nick@,
                source: source@,
                ts_ms: now,
            };
            final(o)@ == op_observer::swept(op_observer::noted(old(o)@, op), now)
        }),
{
}

/// An op counts for its source for ten seconds, and for no other source.
pub proof fn ops_count_for_their_source(
    h: Seq<SeenView>,
    e: SeenView,
    source: Seq<char>,
    now: i64,
)
    ensures
        op_observer::recent(Seq::empty(), source, now) == 0,
        e.source == source && now - e.ts_ms <= 10_000 ==> op_observer::recent(
            h.push(e),
            source,
            now,
        ) == op_observer::recent(h, source, now) + 1,
        e.source != source || now - e.ts_ms > 10_000 ==> op_observer::recent(
            h.push(e),
            source,
            now,
        ) == op_observer::recent(h, source, now),
{
    assert(h.push(e).drop_last() =~= h);
}

/// A sweep reports each op that has waited for more than five seconds, oldest first, and
/// stops at the first one that has not. It forgets what was seen more than ten seconds
/// ago in the same way. Less than a second after the last sweep it does nothing.
pub proof fn sweep_reports_the_overdue(o: &mut OpObserver, now: i64)
    requires
        call_ensures(OpObserver::maybe_sweep, (o, now), ()),
    ensures
        now - old(o)@.last_sweep_ms < 1_000 ==> final(o)@ == old(o)@,
        now - old(o)@.last_sweep_ms >= 1_000 ==> {
            let p = old(o)@.pending;
            let n = p.len() - final(o)@.pending.len();
            let h = old(o)@.history;
            let k = h.len() - final(o)@.history.len();
            &&& 0 <= n <= p.len() && 0 <= k <= h.len()
            &&& final(o)@.last_sweep_ms == now
            &&& final(o)@.guard == old(o)@.guard
            &&& final(o)@.pending == p.skip(n)
            &&& forall|i: int| 0 <= i < n ==> now - (#[trigger] p[i]).ts_ms > 5_000
            &&& n < p.len() ==> now - p[n].ts_ms <= 5_000
            &&& final(o)@.alerts.len() == old(o)@.alerts.len() + n
            &&& forall|i: int|
                0 <= i < old(o)@.alerts.len() ==> #[trigger] final(o)@.alerts[i]
                    == old(o)@.alerts[i]
            &&& forall|i: int|
                0 <= i < n ==> final(o)@.alerts[old(o)@.alerts.len() + i] == (
                AlertView::Uncertified { op: #[trigger] p[i], now_ms: now })
            &&& final(o)@.history == h.skip(k)
            &&& forall|i: int| 0 <= i < k ==> now - (#[trigger] h[i]).ts_ms > 10_000
            &&& k < h.len() ==> now - h[k].ts_ms <= 10_000
        },
{
    lemma_overdue(old(o)@.pending, now);
    lemma_old_history(old(o)@.history, now);
}

proof fn lemma_overdue(p: Seq<OpView>, now: i64)
    ensures
        ({
            let n = op_observer::stale_ops(p, now);
            &&& 0 <= n <= p.len()
            &&& forall|i: int| 0 <= i < n ==> now - (#[trigger] p[i]).ts_ms > 5_000
            &&& n < p.len() ==> now - p[n].ts_ms <= 5_000
        }),
    decreases p.len(),
{
    if p.len() > 0 && now - p[0].ts_ms > 5_000 {
        let t = p.drop_first();
        lemma_overdue(t, now);
        assert(forall|i: int| 0 <= i < t.len() ==> #[trigger] t[i] == p[i + 1]);
        let n = op_observer::stale_ops(p, now);
        assert forall|i: int| 0 <= i < n implies now - (#[trigger] p[i]).ts_ms > 5_000 by {
            if i > 0 {
                assert(t[i - 1] == p[i]);
            }
        }
    }
}

proof fn lemma_old_history(p: Seq<SeenView>, now: i64)
    ensures
        ({
            let n = op_observer::stale_history(p, now);
            &&& 0 <= n <= p.len()
            &&& forall|i: int| 0 <= i < n ==> now - (#[trigger] p[i]).ts_ms > 10_000
            &&& n < p.len() ==> now - p[n].ts_ms <= 10_000
        }),
    decreases p.len(),
{
    if p.len() > 0 && now - p[0].ts_ms > 10_000 {
        let t = p.drop_first();
        lemma_old_history(t, now);
        assert(forall|i: int| 0 <= i < t.len() ==> #[trigger] t[i] == p[i + 1]);
        let n = op_observer::stale_history(p, now);
        assert forall|i: int| 0 <= i < n implies now - (#[trigger] p[i]).ts_ms > 10_000 by {
            if i > 0 {
                assert(t[i - 1] == p[i]);
            }
        }
    }
}

/// Whether an op waits for a cookie for this nick on this channel, and not for too long.
pub open spec fn waits_for(op: OpView, channel: Seq<char>, nick: Seq<char>, now: i64) -> bool {
    op.channel == channel && op.target_nick == nick && now - op.ts_ms <= 5_000
}

/// A genuine cookie certifies the first op that waits for it: that op waits no longer
/// and is not reported, and the others wait on. If none waits for it, it certifies none.
pub proof fn cookie_certifies_the_first_that_waits(
    o: &mut OpObserver,
    channel: &str,
    cookie: &Cookie,
    now: i64,
    b: bool,
    i: int,
)
    requires
        call_ensures(OpObserver::record_cookie, (o, channel, cookie, now), b),
    ensures
        ({
            let p = old(o)@.pending;
            let nick = cookie.target_nick@;
            &&& 0 <= i < p.len() && waits_for(p[i], channel@, nick, now) && (forall|j: int|
                0 <= j < i ==> !waits_for(#[trigger] p[j], channel@, nick, now)) ==> b && final(o)@
                == op_observer::swept(ObserverView { pending: p.remove(i), ..old(o)@ }, now)
            &&& (forall|j: int|
                0 <= j < p.len() ==> !waits_for(#[trigger] p[j], channel@, nick, now)) ==> !b
                && final(o)@ == op_observer::swept(old(o)@, now)
        }),
{
    lemma_first_that_waits(old(o)@.pending, channel@, cookie.target_nick@, now, i);
}

proof fn lemma_first_that_waits(
    p: Seq<OpView>,
    channel: Seq<char>,
    nick: Seq<char>,
    now: i64,
    i: int,
)
    ensures
        0 <= i < p.len() && waits_for(p[i], channel, nick, now) && (forall|j: int|
            0 <= j < i ==> !waits_for(#[trigger] p[j], channel, nick, now))
            ==> op_observer::certified_op(p, channel, nick, now) == i,
        (forall|j: int| 0 <= j < p.len() ==> !waits_for(#[trigger] p[j], channel, nick, now))
            ==> op_observer::certified_op(p, channel, nick, now) == p.len(),
    decreases p.len(),
{
    if p.len() > 0 {
        let t = p.drop_first();
        lemma_first_that_waits(t, channel, nick, now, i - 1);
        assert(forall|j: int| 0 <= j < t.len() ==> #[trigger] t[j] == p[j + 1]);
    }
}

/// A notice counts by the cookie in it, judged under the key of the channel: one that is
/// not genuine changes nothing, and one that is certifies an op for its nick.
pub proof fn notice_counts_by_its_cookie(
    o: &mut OpObserver,
    channel: &str,
    wire: &str,
    ctx: &ObserverContext,
    now: i64,
    clock: i64,
    b: bool,
)
    requires
        call_ensures(OpObserver::record_cookie_notice_at, (o, channel, wire, ctx, now, clock), b),
    ensures
        ({
            let key = crate::model::cookies::key_of(ctx.mesh_psk@, channel@);
            let verdict = crate::model::cookies::judge(wire@, key, old(o)@.guard, clock);
            &&& verdict is Err ==> !b && final(o)@ == old(o)@
            &&& verdict matches Ok(c) ==> {
                let after = ObserverView {
                    guard: crate::model::cookies::observed(old(o)@.guard, c.request_id),
                    ..old(o)@
                };
                (final(o)@, b) == op_observer::cookie_seen(after, channel@, c.nick, now)
            }
        }),
{
}

/// Reports are handed out once, all of them, in order.
pub proof fn reports_are_handed_out_once(o: &mut OpObserver, v: Vec<Alert>)
    requires
        call_ensures(OpObserver::take_alerts, (o,), v),
    ensures
        views::list(v@) == old(o)@.alerts,
        final(o)@.alerts.len() == 0,
        final(o)@.pending == old(o)@.pending,
        final(o)@.history == old(o)@.history,
        final(o)@.guard == old(o)@.guard,
        final(o)@.last_sweep_ms == old(o)@.last_sweep_ms,
{
}

/// The cookie of a notice is what stands behind `shade-cookie/`, white space around the
/// notice aside; another notice has none.
pub proof fn notice_carries_a_cookie(body: &str, r: Option<&str>, wire: Seq<char>)
    requires
        call_ensures(op_observer::extract_cookie_wire, (body,), r),
    ensures
        text::trimmed(body@) == "shade-cookie/"@ + wire ==> (r matches Some(w) && w@ == wire),
        r matches Some(w) ==> text::trimmed(body@) == "shade-cookie/"@ + w@,
{
    let p = "shade-cookie/"@;
    let t = text::trimmed(body@);
    if t == p + wire {
        assert(t.take(p.len() as int) =~= p);
        assert(t.skip(p.len() as int) =~= wire);
    }
    if let Some(w) = r {
        assert(t =~= t.take(p.len() as int) + t.skip(p.len() as int));
    }
}

} // verus!
