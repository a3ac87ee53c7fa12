//! Why replicas agree: last-write-wins merges do not depend on the order in
//! which rows arrive.

use crate::model::channel::{ChannelRecord, SettingsView, UserFlagsView};
use crate::model::mask::MaskView;
use crate::model::user::UserView;
use crate::order;
use crate::store::gossip;
use crate::store::gossip::{MaskState, Stamp};
use vstd::prelude::*;

verus! {

// ----- stamps -------------------------------------------------------------------

/// No write replaces itself.
pub proof fn beats_is_irreflexive(a: Stamp)
    ensures
        !gossip::beats(a, a),
{
    order::lex_irreflexive(a.origin);
}

/// What replaces a write replaces whatever that write replaced.
pub proof fn beats_is_transitive(a: Stamp, b: Stamp, c: Stamp)
    requires
        gossip::beats(a, b),
        gossip::beats(b, c),
    ensures
        gossip::beats(a, c),
{
    if a.at == b.at && b.at == c.at {
        order::lex_transitive(a.origin, b.origin, c.origin);
    }
}

/// Of two writes with different stamps exactly one replaces the other.
pub proof fn beats_is_total(a: Stamp, b: Stamp)
    requires
        a != b,
    ensures
        gossip::beats(a, b) != gossip::beats(b, a),
{
    if a.at == b.at {
        order::lex_total(a.origin, b.origin);
        if order::lex_lt(a.origin, b.origin) {
            order::lex_asymmetric(a.origin, b.origin);
        } else {
            order::lex_asymmetric(b.origin, a.origin);
        }
    }
}

proof fn lemma_beats(a: Stamp, b: Stamp)
    ensures
        !(gossip::beats(a, b) && gossip::beats(b, a)),
        a != b ==> gossip::beats(a, b) || gossip::beats(b, a),
        a == b ==> !gossip::beats(a, b),
{
    if a == b {
        beats_is_irreflexive(a);
    } else {
        beats_is_total(a, b);
    }
}

proof fn lemma_chain(a: Stamp, b: Stamp, c: Stamp)
    ensures
        gossip::beats(a, b) && gossip::beats(b, c) ==> gossip::beats(a, c),
{
    if gossip::beats(a, b) && gossip::beats(b, c) {
        beats_is_transitive(a, b, c);
    }
}

proof fn lemma_three(a: Stamp, b: Stamp, c: Stamp)
    ensures
        gossip::beats(a, b) && gossip::beats(b, c) ==> gossip::beats(a, c),
        gossip::beats(a, c) && gossip::beats(c, b) ==> gossip::beats(a, b),
        gossip::beats(b, a) && gossip::beats(a, c) ==> gossip::beats(b, c),
        gossip::beats(b, c) && gossip::beats(c, a) ==> gossip::beats(b, a),
        gossip::beats(c, a) && gossip::beats(a, b) ==> gossip::beats(c, b),
        gossip::beats(c, b) && gossip::beats(b, a) ==> gossip::beats(c, a),
{
    lemma_chain(a, b, c);
    lemma_chain(a, c, b);
    lemma_chain(b, a, c);
    lemma_chain(b, c, a);
    lemma_chain(c, a, b);
    lemma_chain(c, b, a);
}

proof fn lemma_order(a: Stamp, b: Stamp, c: Stamp)
    ensures
        !(gossip::beats(a, b) && gossip::beats(b, a)),
        !(gossip::beats(a, c) && gossip::beats(c, a)),
        !(gossip::beats(b, c) && gossip::beats(c, b)),
        a != b ==> gossip::beats(a, b) || gossip::beats(b, a),
        a != c ==> gossip::beats(a, c) || gossip::beats(c, a),
        b != c ==> gossip::beats(b, c) || gossip::beats(c, b),
        a == b ==> !gossip::beats(a, b),
        a == c ==> !gossip::beats(a, c),
        b == c ==> !gossip::beats(b, c),
        gossip::beats(a, b) && gossip::beats(b, c) ==> gossip::beats(a, c),
        gossip::beats(a, c) && gossip::beats(c, b) ==> gossip::beats(a, b),
        gossip::beats(b, a) && gossip::beats(a, c) ==> gossip::beats(b, c),
        gossip::beats(b, c) && gossip::beats(c, a) ==> gossip::beats(b, a),
        gossip::beats(c, a) && gossip::beats(a, b) ==> gossip::beats(c, b),
        gossip::beats(c, b) && gossip::beats(b, a) ==> gossip::beats(c, a),
{
    lemma_beats(a, b);
    lemma_beats(a, c);
    lemma_beats(b, c);
    lemma_three(a, b, c);
}

// ----- what a store holds after a row arrived -----------------------------------

/// The user row held after `u` arrived.
pub open spec fn user_after(local: Option<UserView>, u: UserView) -> Option<UserView> {
    match gossip::user_upserted(local, u) {
        Some(row) => Some(row),
        None => local,
    }
}

/// The user row held after a delete stamped `d` arrived.
pub open spec fn user_after_delete(local: Option<UserView>, d: Stamp) -> Option<UserView> {
    if local matches Some(l) && gossip::beats(d, gossip::user_stamp(l)) {
        None
    } else {
        local
    }
}

/// The channel row held after `c` arrived.
pub open spec fn channel_after(local: Option<ChannelRecord>, c: ChannelRecord) -> Option<
    ChannelRecord,
> {
    match gossip::channel_upserted(local, c) {
        Some(row) => Some(row),
        None => local,
    }
}

/// The settings held after `s` arrived.
pub open spec fn settings_after(local: Option<SettingsView>, s: SettingsView) -> Option<
    SettingsView,
> {
    match gossip::settings_upserted(local, s) {
        Some(row) => Some(row),
        None => local,
    }
}

/// The flag row held after `f` arrived.
pub open spec fn flags_after(local: Option<UserFlagsView>, f: UserFlagsView) -> Option<
    UserFlagsView,
> {
    match gossip::flags_upserted(local, f) {
        Some(row) => Some(row),
        None => local,
    }
}

/// What is held under a mask id after the mask `m` arrived.
pub open spec fn mask_after(s: MaskState, m: MaskView) -> MaskState {
    match gossip::mask_upserted(s, m) {
        Some(row) => MaskState { row: Some(row), ..s },
        None => s,
    }
}

/// What is held under a mask id after a delete stamped `d` arrived.
pub open spec fn mask_after_delete(s: MaskState, d: Stamp) -> MaskState {
    MaskState {
        row: if gossip::removes_row(s, d) {
            None
        } else {
            s.row
        },
        tombstone: if gossip::leaves_tombstone(s, d) {
            Some(d)
        } else {
            s.tombstone
        },
    }
}

// ----- a row that arrives twice -------------------------------------------------

/// A row that arrives again changes nothing.
pub proof fn repeats_change_nothing(
    user: Option<UserView>,
    u: UserView,
    channel: Option<ChannelRecord>,
    c: ChannelRecord,
    settings: Option<SettingsView>,
    s: SettingsView,
    flags: Option<UserFlagsView>,
    f: UserFlagsView,
    masks: MaskState,
    m: MaskView,
)
    ensures
        gossip::user_upserted(user_after(user, u), u) is None,
        gossip::channel_upserted(channel_after(channel, c), c) is None,
        gossip::settings_upserted(settings_after(settings, s), s) is None,
        gossip::flags_upserted(flags_after(flags, f), f) is None,
        gossip::mask_upserted(mask_after(masks, m), m) is None,
{
    beats_is_irreflexive(gossip::user_stamp(u));
    beats_is_irreflexive(gossip::channel_stamp(c));
    beats_is_irreflexive(gossip::settings_stamp(s));
    beats_is_irreflexive(gossip::flags_stamp(f));
    beats_is_irreflexive(gossip::mask_stamp(m));
}

/// A mask delete that arrives again changes nothing.
pub proof fn repeated_delete_changes_nothing(s: MaskState, d: Stamp)
    ensures
        !gossip::removes_row(mask_after_delete(s, d), d),
        !gossip::leaves_tombstone(mask_after_delete(s, d), d),
{
    beats_is_irreflexive(d);
}

// ----- order does not matter ----------------------------------------------------

/// Two user rows of different stamps may arrive in either order. Where there is
/// no local row yet, they agree on when the user was made.
pub proof fn user_upserts_commute(local: Option<UserView>, u: UserView, v: UserView)
    requires
        gossip::user_stamp(u) != gossip::user_stamp(v),
        local is Some || u.created_at == v.created_at,
    ensures
        user_after(user_after(local, u), v) == user_after(user_after(local, v), u),
{
    let su = gossip::user_stamp(u);
    let sv = gossip::user_stamp(v);
    lemma_beats(su, sv);
    if local is Some {
        lemma_order(su, sv, gossip::user_stamp(local->0));
    }
}

/// Two channel rows of different stamps may arrive in either order. Where there
/// is no local row yet, they agree on when the channel was made.
pub proof fn channel_upserts_commute(
    local: Option<ChannelRecord>,
    u: ChannelRecord,
    v: ChannelRecord,
)
    requires
        gossip::channel_stamp(u) != gossip::channel_stamp(v),
        local is Some || u.created_at == v.created_at,
    ensures
        channel_after(channel_after(local, u), v) == channel_after(channel_after(local, v), u),
{
    let su = gossip::channel_stamp(u);
    let sv = gossip::channel_stamp(v);
    lemma_beats(su, sv);
    if local is Some {
        lemma_order(su, sv, gossip::channel_stamp(local->0));
    }
}

/// Two settings rows of different stamps may arrive in either order.
pub proof fn settings_upserts_commute(
    local: Option<SettingsView>,
    u: SettingsView,
    v: SettingsView,
)
    requires
        gossip::settings_stamp(u) != gossip::settings_stamp(v),
    ensures
        settings_after(settings_after(local, u), v) == settings_after(settings_after(local, v), u),
{
    let su = gossip::settings_stamp(u);
    let sv = gossip::settings_stamp(v);
    lemma_beats(su, sv);
    if local is Some {
        lemma_order(su, sv, gossip::settings_stamp(local->0));
    }
}

/// Two flag rows of different stamps may arrive in either order.
pub proof fn flags_upserts_commute(
    local: Option<UserFlagsView>,
    u: UserFlagsView,
    v: UserFlagsView,
)
    requires
        gossip::flags_stamp(u) != gossip::flags_stamp(v),
    ensures
        flags_after(flags_after(local, u), v) == flags_after(flags_after(local, v), u),
{
    let su = gossip::flags_stamp(u);
    let sv = gossip::flags_stamp(v);
    lemma_beats(su, sv);
    if local is Some {
        lemma_order(su, sv, gossip::flags_stamp(local->0));
    }
}

/// Two masks of different stamps may arrive in either order, whatever the store
/// holds under their id.
pub proof fn mask_upserts_commute(s: MaskState, u: MaskView, v: MaskView)
    requires
        gossip::mask_stamp(u) != gossip::mask_stamp(v),
    ensures
        mask_after(mask_after(s, u), v) == mask_after(mask_after(s, v), u),
{
    let su = gossip::mask_stamp(u);
    let sv = gossip::mask_stamp(v);
    lemma_beats(su, sv);
    if s.row is Some {
        lemma_order(su, sv, gossip::mask_stamp(s.row->0));
    }
    if s.tombstone is Some {
        lemma_order(su, sv, s.tombstone->0);
        lemma_buries(s.tombstone->0, su);
        lemma_buries(s.tombstone->0, sv);
    }
}

proof fn lemma_buries(t: Stamp, m: Stamp)
    ensures
        gossip::buries(t, m) == !gossip::beats(m, t),
{
}

/// A mask and a delete of it, of different stamps, may arrive in either order:
/// a delete survives reordering.
pub proof fn mask_delete_survives_reordering(s: MaskState, m: MaskView, d: Stamp)
    requires
        gossip::mask_stamp(m) != d,
    ensures
        mask_after_delete(mask_after(s, m), d) == mask_after(mask_after_delete(s, d), m),
{
    let sm = gossip::mask_stamp(m);
    lemma_beats(sm, d);
    lemma_buries(d, sm);
    if s.row is Some {
        lemma_order(sm, d, gossip::mask_stamp(s.row->0));
    }
    if s.tombstone is Some {
        lemma_order(sm, d, s.tombstone->0);
        lemma_buries(s.tombstone->0, sm);
    }
}

/// Two deletes of a mask may arrive in either order.
pub proof fn mask_deletes_commute(s: MaskState, d: Stamp, e: Stamp)
    ensures
        mask_after_delete(mask_after_delete(s, d), e) == mask_after_delete(
            mask_after_delete(s, e),
            d,
        ),
{
    lemma_beats(d, e);
    if s.row is Some {
        lemma_order(d, e, gossip::mask_stamp(s.row->0));
    }
    if s.tombstone is Some {
        lemma_order(d, e, s.tombstone->0);
    }
}

/// A deleted mask stays deleted: a row that the delete replaces never comes
/// back.
pub proof fn deleted_masks_stay_deleted(s: MaskState, m: MaskView, d: Stamp)
    requires
        gossip::beats(d, gossip::mask_stamp(m)),
    ensures
        gossip::mask_upserted(mask_after_delete(s, d), m) is None,
{
    let sm = gossip::mask_stamp(m);
    lemma_beats(sm, d);
    lemma_buries(d, sm);
    if s.tombstone is Some {
        lemma_order(sm, d, s.tombstone->0);
        lemma_buries(s.tombstone->0, sm);
    }
}

// ----- time does not run backwards ----------------------------------------------

/// The stamp of a stored user row never goes back.
pub proof fn user_stamp_only_advances(local: UserView, u: UserView)
    ensures
        user_after(Some(local), u) matches Some(row) && (gossip::user_stamp(row)
            == gossip::user_stamp(local) || gossip::beats(
            gossip::user_stamp(row),
            gossip::user_stamp(local),
        )),
{
}

/// A delete removes a user row exactly when an upsert of the same stamp would
/// replace it.
pub proof fn delete_and_upsert_agree(local: UserView, u: UserView)
    ensures
        user_after_delete(Some(local), gossip::user_stamp(u)) is None <==> gossip::user_upserted(
            Some(local),
            u,
        ) is Some,
{
}

// ----- replicas converge --------------------------------------------------------

/// What is held after a list of events, first to last.
pub open spec fn after_all<S, E>(step: spec_fn(S, E) -> S, held: S, l: Seq<E>) -> S
    decreases l.len(),
{
    if l.len() == 0 {
        held
    } else {
        step(after_all(step, held, l.drop_last()), l.last())
    }
}

/// Whether two lists hold the same events, in whatever order and however often.
pub open spec fn same_events<E>(a: Seq<E>, b: Seq<E>) -> bool {
    forall|e: E|
        #![trigger a.contains(e)]
        #![trigger b.contains(e)]
        a.contains(e) <==> b.contains(e)
}

/// Whether two of these events may always change places, and a repeat of one
/// changes nothing.
spec fn tame<S, E>(step: spec_fn(S, E) -> S, events: spec_fn(E) -> bool) -> bool {
    &&& forall|s: S, d: E, e: E|
        events(d) && events(e) ==> #[trigger] step(step(s, d), e) == step(step(s, e), d)
    &&& forall|s: S, e: E| events(e) ==> #[trigger] step(step(s, e), e) == step(s, e)
}

spec fn all_in<E>(l: Seq<E>, events: spec_fn(E) -> bool) -> bool {
    forall|i: int| 0 <= i < l.len() ==> events(#[trigger] l[i])
}

proof fn lemma_pass<S, E>(
    step: spec_fn(S, E) -> S,
    events: spec_fn(E) -> bool,
    held: S,
    l: Seq<E>,
    e: E,
)
    requires
        tame(step, events),
        all_in(l, events),
        events(e),
    ensures
        step(after_all(step, held, l), e) == after_all(step, step(held, e), l),
    decreases l.len(),
{
    if l.len() > 0 {
        let front = l.drop_last();
        assert(all_in(front, events)) by {
            assert forall|i: int| 0 <= i < front.len() implies events(#[trigger] front[i]) by {
                assert(front[i] == l[i]);
            }
        }
        lemma_pass(step, events, held, front, e);
        assert(events(l[l.len() - 1]));
        let f = after_all(step, held, front);
        assert(step(step(f, l.last()), e) == step(step(f, e), l.last()));
    }
}

proof fn lemma_absorb<S, E>(
    step: spec_fn(S, E) -> S,
    events: spec_fn(E) -> bool,
    held: S,
    l: Seq<E>,
    k: int,
)
    requires
        tame(step, events),
        all_in(l, events),
        0 <= k < l.len(),
    ensures
        step(after_all(step, held, l), l[k]) == after_all(step, held, l),
    decreases l.len(),
{
    let front = l.drop_last();
    let e = l[k];
    let f = after_all(step, held, front);
    assert(events(l[k]));
    assert(events(l[l.len() - 1]));
    assert(all_in(front, events)) by {
        assert forall|i: int| 0 <= i < front.len() implies events(#[trigger] front[i]) by {
            assert(front[i] == l[i]);
        }
    }
    if k == l.len() - 1 {
        assert(step(step(f, e), e) == step(f, e));
    } else {
        lemma_absorb(step, events, held, front, k);
        assert(front[k] == e);
        assert(step(step(f, l.last()), e) == step(step(f, e), l.last()));
    }
}

proof fn lemma_absorb_all<S, E>(
    step: spec_fn(S, E) -> S,
    events: spec_fn(E) -> bool,
    held: S,
    a: Seq<E>,
    b: Seq<E>,
)
    requires
        tame(step, events),
        all_in(a, events),
        forall|i: int| 0 <= i < b.len() ==> a.contains(#[trigger] b[i]),
    ensures
        after_all(step, after_all(step, held, a), b) == after_all(step, held, a),
    decreases b.len(),
{
    if b.len() > 0 {
        let front = b.drop_last();
        assert forall|i: int| 0 <= i < front.len() implies a.contains(#[trigger] front[i]) by {
            assert(front[i] == b[i]);
        }
        lemma_absorb_all(step, events, held, a, front);
        assert(a.contains(b[b.len() - 1]));
        let k = choose|k: int| 0 <= k < a.len() && a[k] == b.last();
        lemma_absorb(step, events, held, a, k);
    }
}

proof fn lemma_swap<S, E>(
    step: spec_fn(S, E) -> S,
    events: spec_fn(E) -> bool,
    held: S,
    a: Seq<E>,
    b: Seq<E>,
)
    requires
        tame(step, events),
        all_in(a, events),
        all_in(b, events),
    ensures
        after_all(step, after_all(step, held, a), b) == after_all(
            step,
            after_all(step, held, b),
            a,
        ),
    decreases b.len(),
{
    if b.len() > 0 {
        let front = b.drop_last();
        assert(all_in(front, events)) by {
            assert forall|i: int| 0 <= i < front.len() implies events(#[trigger] front[i]) by {
                assert(front[i] == b[i]);
            }
        }
        lemma_swap(step, events, held, a, front);
        assert(events(b[b.len() - 1]));
        lemma_pass(step, events, after_all(step, held, front), a, b.last());
    }
}

proof fn lemma_converge<S, E>(
    step: spec_fn(S, E) -> S,
    events: spec_fn(E) -> bool,
    held: S,
    a: Seq<E>,
    b: Seq<E>,
)
    requires
        tame(step, events),
        all_in(a, events),
        same_events(a, b),
    ensures
        after_all(step, held, a) == after_all(step, held, b),
{
    assert forall|i: int| 0 <= i < b.len() implies a.contains(#[trigger] b[i]) && events(b[i]) by {
        assert(b.contains(b[i]));
        let k = choose|k: int| 0 <= k < a.len() && a[k] == b[i];
        assert(events(a[k]));
    }
    assert forall|i: int| 0 <= i < a.len() implies b.contains(#[trigger] a[i]) by {
        assert(a.contains(a[i]));
    }
    lemma_absorb_all(step, events, held, a, b);
    lemma_absorb_all(step, events, held, b, a);
    lemma_swap(step, events, held, a, b);
}

/// How a user row arrives.
pub open spec fn user_step() -> spec_fn(Option<UserView>, UserView) -> Option<UserView> {
    |held: Option<UserView>, u: UserView| user_after(held, u)
}

/// How a channel row arrives.
pub open spec fn channel_step() -> spec_fn(Option<ChannelRecord>, ChannelRecord) -> Option<
    ChannelRecord,
> {
    |held: Option<ChannelRecord>, c: ChannelRecord| channel_after(held, c)
}

/// How a settings row arrives.
pub open spec fn settings_step() -> spec_fn(Option<SettingsView>, SettingsView) -> Option<
    SettingsView,
> {
    |held: Option<SettingsView>, s: SettingsView| settings_after(held, s)
}

/// How a flag row arrives.
pub open spec fn flags_step() -> spec_fn(Option<UserFlagsView>, UserFlagsView) -> Option<
    UserFlagsView,
> {
    |held: Option<UserFlagsView>, f: UserFlagsView| flags_after(held, f)
}

/// What can arrive about a mask.
pub enum MaskEvent {
    Upsert(MaskView),
    Delete(Stamp),
}

/// How a mask, or a delete of it, arrives.
pub open spec fn mask_step() -> spec_fn(MaskState, MaskEvent) -> MaskState {
    |held: MaskState, e: MaskEvent|
        match e {
            MaskEvent::Upsert(m) => mask_after(held, m),
            MaskEvent::Delete(d) => mask_after_delete(held, d),
        }
}

/// Replicas converge on users: two nodes that hold the same row, or none, and
/// receive the same rows, in whatever order and however often, hold the same row
/// again. Different rows carry different stamps, and all agree on when the user
/// was made.
pub proof fn users_converge(held: Option<UserView>, a: Seq<UserView>, b: Seq<UserView>)
    requires
        same_events(a, b),
        forall|u: UserView, v: UserView| #[trigger]
            a.contains(u) && #[trigger] a.contains(v) ==> u.created_at == v.created_at && (
            gossip::user_stamp(u) == gossip::user_stamp(v) ==> u == v),
    ensures
        after_all(user_step(), held, a) == after_all(user_step(), held, b),
{
    let step = user_step();
    let events = |u: UserView| a.contains(u);
    assert forall|s: Option<UserView>, d: UserView, e: UserView|
        events(d) && events(e) implies #[trigger] step(step(s, d), e) == step(step(s, e), d) by {
        if d != e {
            user_upserts_commute(s, d, e);
        }
    }
    assert forall|s: Option<UserView>, e: UserView| events(e) implies #[trigger] step(
        step(s, e),
        e,
    ) == step(s, e) by {
        beats_is_irreflexive(gossip::user_stamp(e));
    }
    lemma_converge(step, events, held, a, b);
}

/// Replicas converge on channels, as they do on users.
pub proof fn channels_converge(
    held: Option<ChannelRecord>,
    a: Seq<ChannelRecord>,
    b: Seq<ChannelRecord>,
)
    requires
        same_events(a, b),
        forall|u: ChannelRecord, v: ChannelRecord| #[trigger]
            a.contains(u) && #[trigger] a.contains(v) ==> u.created_at == v.created_at && (
            gossip::channel_stamp(u) == gossip::channel_stamp(v) ==> u == v),
    ensures
        after_all(channel_step(), held, a) == after_all(channel_step(), held, b),
{
    let step = channel_step();
    let events = |u: ChannelRecord| a.contains(u);
    assert forall|s: Option<ChannelRecord>, d: ChannelRecord, e: ChannelRecord|
        events(d) && events(e) implies #[trigger] step(step(s, d), e) == step(step(s, e), d) by {
        if d != e {
            channel_upserts_commute(s, d, e);
        }
    }
    assert forall|s: Option<ChannelRecord>, e: ChannelRecord| events(e) implies #[trigger] step(
        step(s, e),
        e,
    ) == step(s, e) by {
        beats_is_irreflexive(gossip::channel_stamp(e));
    }
    lemma_converge(step, events, held, a, b);
}

/// Replicas converge on settings: two nodes that hold the same row, or none, and
/// receive the same rows, in whatever order and however often, hold the same row
/// again, provided that different rows carry different stamps.
pub proof fn settings_converge(
    held: Option<SettingsView>,
    a: Seq<SettingsView>,
    b: Seq<SettingsView>,
)
    requires
        same_events(a, b),
        forall|u: SettingsView, v: SettingsView| #[trigger]
            a.contains(u) && #[trigger] a.contains(v) && gossip::settings_stamp(u)
                == gossip::settings_stamp(v) ==> u == v,
    ensures
        after_all(settings_step(), held, a) == after_all(settings_step(), held, b),
{
    let step = settings_step();
    let events = |u: SettingsView| a.contains(u);
    assert forall|s: Option<SettingsView>, d: SettingsView, e: SettingsView|
        events(d) && events(e) implies #[trigger] step(step(s, d), e) == step(step(s, e), d) by {
        if d != e {
            settings_upserts_commute(s, d, e);
        }
    }
    assert forall|s: Option<SettingsView>, e: SettingsView| events(e) implies #[trigger] step(
        step(s, e),
        e,
    ) == step(s, e) by {
        beats_is_irreflexive(gossip::settings_stamp(e));
    }
    lemma_converge(step, events, held, a, b);
}

/// Replicas converge on the flags of users, as they do on settings.
pub proof fn flags_converge(
    held: Option<UserFlagsView>,
    a: Seq<UserFlagsView>,
    b: Seq<UserFlagsView>,
)
    requires
        same_events(a, b),
        forall|u: UserFlagsView, v: UserFlagsView| #[trigger]
            a.contains(u) && #[trigger] a.contains(v) && gossip::flags_stamp(u)
                == gossip::flags_stamp(v) ==> u == v,
    ensures
        after_all(flags_step(), held, a) == after_all(flags_step(), held, b),
{
    let step = flags_step();
    let events = |u: UserFlagsView| a.contains(u);
    assert forall|s: Option<UserFlagsView>, d: UserFlagsView, e: UserFlagsView|
        events(d) && events(e) implies #[trigger] step(step(s, d), e) == step(step(s, e), d) by {
        if d != e {
            flags_upserts_commute(s, d, e);
        }
    }
    assert forall|s: Option<UserFlagsView>, e: UserFlagsView| events(e) implies #[trigger] step(
        step(s, e),
        e,
    ) == step(s, e) by {
        beats_is_irreflexive(gossip::flags_stamp(e));
    }
    lemma_converge(step, events, held, a, b);
}

/// The stamp of what arrives about a mask.
pub open spec fn event_stamp(e: MaskEvent) -> Stamp {
    match e {
        MaskEvent::Upsert(m) => gossip::mask_stamp(m),
        MaskEvent::Delete(d) => d,
    }
}

/// Replicas converge on masks and on deletes of them: two nodes that hold the
/// same and receive the same masks and deletes, in whatever order and however
/// often, hold the same again, provided that no two of these events carry the
/// same stamp.
pub proof fn masks_converge(held: MaskState, a: Seq<MaskEvent>, b: Seq<MaskEvent>)
    requires
        same_events(a, b),
        forall|d: MaskEvent, e: MaskEvent| #[trigger]
            a.contains(d) && #[trigger] a.contains(e) && event_stamp(d) == event_stamp(e) ==> d
                == e,
    ensures
        after_all(mask_step(), held, a) == after_all(mask_step(), held, b),
{
    let step = mask_step();
    let events = |e: MaskEvent| a.contains(e);
    assert forall|s: MaskState, d: MaskEvent, e: MaskEvent| events(d) && events(e) implies #[trigger]
        step(step(s, d), e) == step(step(s, e), d) by {
        match (d, e) {
            (MaskEvent::Upsert(m), MaskEvent::Upsert(n)) => {
                if d != e {
                    mask_upserts_commute(s, m, n);
                }
            },
            (MaskEvent::Upsert(m), MaskEvent::Delete(x)) => {
                mask_delete_survives_reordering(s, m, x);
            },
            (MaskEvent::Delete(x), MaskEvent::Upsert(m)) => {
                mask_delete_survives_reordering(s, m, x);
            },
            (MaskEvent::Delete(x), MaskEvent::Delete(y)) => {
                mask_deletes_commute(s, x, y);
            },
        }
    }
    assert forall|s: MaskState, e: MaskEvent| events(e) implies #[trigger] step(step(s, e), e)
        == step(s, e) by {
        match e {
            MaskEvent::Upsert(m) => {
                beats_is_irreflexive(gossip::mask_stamp(m));
            },
            MaskEvent::Delete(d) => {
                repeated_delete_changes_nothing(s, d);
            },
        }
    }
    lemma_converge(step, events, held, a, b);
}

// ----- the newest write is held -------------------------------------------------

/// Whether `w` is the stamp of a row in the list, and no row of the list
/// replaces it.
pub open spec fn is_newest<R>(l: Seq<R>, stamp: spec_fn(R) -> Stamp, w: Stamp) -> bool {
    &&& exists|i: int| 0 <= i < l.len() && stamp(#[trigger] l[i]) == w
    &&& forall|i: int| 0 <= i < l.len() ==> !gossip::beats(stamp(#[trigger] l[i]), w)
}

/// Whether a step holds the later of two stamps.
spec fn keeps_newest<R>(step: spec_fn(Option<R>, R) -> Option<R>, stamp: spec_fn(R) -> Stamp) -> bool {
    forall|held: Option<R>, x: R|
        match #[trigger] step(held, x) {
            None => false,
            Some(w) => match held {
                None => stamp(w) == stamp(x),
                Some(h) => stamp(w) == if gossip::beats(stamp(x), stamp(h)) {
                    stamp(x)
                } else {
                    stamp(h)
                },
            },
        }
}

proof fn lemma_newest<R>(
    step: spec_fn(Option<R>, R) -> Option<R>,
    stamp: spec_fn(R) -> Stamp,
    l: Seq<R>,
)
    requires
        keeps_newest(step, stamp),
        l.len() > 0,
    ensures
        after_all(step, None, l) matches Some(w) && is_newest(l, stamp, stamp(w)),
    decreases l.len(),
{
    let front = l.drop_last();
    let held = after_all(step, None, front);
    let last = stamp(l.last());
    let n = l.len() - 1;
    assert(l[n] == l.last());
    if front.len() == 0 {
        beats_is_irreflexive(last);
    } else {
        lemma_newest(step, stamp, front);
        let h = stamp(held->0);
        let i = choose|i: int| 0 <= i < front.len() && stamp(#[trigger] front[i]) == h;
        assert(l[i] == front[i]);
        lemma_beats(last, h);
        let w = if gossip::beats(last, h) {
            last
        } else {
            h
        };
        assert(step(held, l.last()) is Some);
        assert forall|k: int| 0 <= k < l.len() implies !gossip::beats(stamp(#[trigger] l[k]), w) by {
            if k < n {
                assert(front[k] == l[k]);
                lemma_order(stamp(l[k]), last, h);
            } else {
                beats_is_irreflexive(last);
            }
        }
    }
}

/// The last write wins: of the user rows that arrive, the one held in the end has
/// the newest stamp.
pub proof fn newest_user_is_held(l: Seq<UserView>)
    requires
        l.len() > 0,
    ensures
        after_all(user_step(), None, l) matches Some(w) && is_newest(
            l,
            |r: UserView| gossip::user_stamp(r),
            gossip::user_stamp(w),
        ),
{
    lemma_newest(user_step(), |r: UserView| gossip::user_stamp(r), l);
}

/// The last write wins: of the channel rows that arrive, the one held in the end has
/// the newest stamp.
pub proof fn newest_channel_is_held(l: Seq<ChannelRecord>)
    requires
        l.len() > 0,
    ensures
        after_all(channel_step(), None, l) matches Some(w) && is_newest(
            l,
            |r: ChannelRecord| gossip::channel_stamp(r),
            gossip::channel_stamp(w),
        ),
{
    lemma_newest(channel_step(), |r: ChannelRecord| gossip::channel_stamp(r), l);
}

/// The last write wins: of the settings rows that arrive, the one held in the end has
/// the newest stamp.
pub proof fn newest_settings_are_held(l: Seq<SettingsView>)
    requires
        l.len() > 0,
    ensures
        after_all(settings_step(), None, l) matches Some(w) && is_newest(
            l,
            |r: SettingsView| gossip::settings_stamp(r),
            gossip::settings_stamp(w),
        ),
{
    lemma_newest(settings_step(), |r: SettingsView| gossip::settings_stamp(r), l);
}

/// The last write wins: of the flag rows that arrive, the one held in the end has
/// the newest stamp.
pub proof fn newest_flags_are_held(l: Seq<UserFlagsView>)
    requires
        l.len() > 0,
    ensures
        after_all(flags_step(), None, l) matches Some(w) && is_newest(
            l,
            |r: UserFlagsView| gossip::flags_stamp(r),
            gossip::flags_stamp(w),
        ),
{
    lemma_newest(flags_step(), |r: UserFlagsView| gossip::flags_stamp(r), l);
}

} // verus!
