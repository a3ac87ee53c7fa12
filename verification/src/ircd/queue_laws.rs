//! Nothing that is queued gets lost, and every line says what was queued.

use crate::ircd::mode_queue;
use crate::ircd::mode_queue::{
    ChangeView, Direction, ModeChange, ModeQueue, Priority, QueueKind, QueueView,
    MAX_MODES_PER_LINE,
};
use crate::order;
use crate::text;
use vstd::prelude::*;

verus! {

// ----- queueing -----------------------------------------------------------------

/// What is queued stands last in its bucket; no other bucket changes.
pub proof fn queued_change_is_pending(
    q: &mut ModeQueue,
    channel: &str,
    kind: QueueKind,
    change: ModeChange,
    other: Seq<char>,
    other_kind: QueueKind,
)
    requires
        call_ensures(ModeQueue::enqueue, (q, channel, kind, change), ()),
    ensures
        mode_queue::pending_in(final(q)@, channel@, kind) == mode_queue::pending_in(
            old(q)@,
            channel@,
            kind,
        ).push(change@),
        other != channel@ || other_kind != kind ==> mode_queue::pending_in(
            final(q)@,
            other,
            other_kind,
        ) == mode_queue::pending_in(old(q)@, other, other_kind),
{
}

/// A new queue has nothing pending.
pub proof fn new_queue_is_empty(q: ModeQueue, channel: Seq<char>, kind: QueueKind)
    requires
        call_ensures(ModeQueue::new, (), q),
    ensures
        mode_queue::pending_in(q@, channel, kind).len() == 0,
{
}

/// A change of a mode holds the letter and the argument that it was made with, and its
/// direction; it can wait unless it is told otherwise.
pub proof fn changes_are_as_made(mode: char, arg: Option<String>, a: ModeChange, r: ModeChange)
    requires
        call_ensures(ModeChange::add, (mode, arg), a),
        call_ensures(ModeChange::remove, (mode, arg), r),
    ensures
        a.direction == Direction::Add && r.direction == Direction::Remove,
        a.mode == mode && r.mode == mode,
        a.arg is Some == arg is Some && r.arg is Some == arg is Some,
        arg matches Some(x) ==> a.arg->0@ == x@ && r.arg->0@ == x@,
        a.priority == Priority::Normal && r.priority == Priority::Normal,
{
    assert(a@.arg == text::opt_view(arg) && r@.arg == text::opt_view(arg));
}

// ----- sending ------------------------------------------------------------------

/// A flush hands out the lines of its bucket and empties it; no other bucket changes.
pub proof fn flush_sends_its_bucket(
    q: &mut ModeQueue,
    channel: &str,
    kind: QueueKind,
    lines: Vec<String>,
    other: Seq<char>,
    other_kind: QueueKind,
)
    requires
        call_ensures(ModeQueue::flush, (q, channel, kind), lines),
    ensures
        text::views(lines@) == mode_queue::flushed(
            channel@,
            mode_queue::pending_in(old(q)@, channel@, kind),
        ),
        mode_queue::pending_in(final(q)@, channel@, kind).len() == 0,
        other != channel@ || other_kind != kind ==> mode_queue::pending_in(
            final(q)@,
            other,
            other_kind,
        ) == mode_queue::pending_in(old(q)@, other, other_kind),
{
    mode_queue::flush_drains_one_bucket(old(q)@, channel@, kind, other, other_kind);
}

/// A tick empties every bucket. Any other poll empties those that fill a line or hold
/// a change that cannot wait, and leaves the rest as they are.
pub proof fn poll_empties_what_is_due(
    q: &mut ModeQueue,
    all: bool,
    out: Vec<(String, String)>,
    channel: Seq<char>,
    kind: QueueKind,
)
    requires
        call_ensures(ModeQueue::poll_due, (q, all), out),
    ensures
        ({
            let before = mode_queue::pending_in(old(q)@, channel, kind);
            let after = mode_queue::pending_in(final(q)@, channel, kind);
            let urgent = exists|i: int|
                0 <= i < before.len() && (#[trigger] before[i]).priority == Priority::Quick;
            &&& all ==> after.len() == 0
            &&& !all && (before.len() >= 6 || urgent) ==> after.len() == 0
            &&& !all && before.len() < 6 && !urgent ==> after == before
        }),
{
    lemma_after_poll(old(q)@, all, channel, kind);
}

proof fn lemma_after_poll(q: QueueView, all: bool, channel: Seq<char>, kind: QueueKind)
    ensures
        mode_queue::pending_in(mode_queue::after_poll(q, all), channel, kind) == mode_queue::held(
            mode_queue::pending_in(q, channel, kind),
            all,
        ),
{
    let after = mode_queue::after_poll(q, all);
    let none = Seq::<ChangeView>::empty();
    assert(!mode_queue::is_due(none, all));
    if q.contains_key(channel) && !after.contains_key(channel) {
        let h = mode_queue::held_buckets(q[channel], all);
        assert(h.standard =~= none && h.cookie =~= none);
    }
}

/// Whether these lines stand in an output, one behind the other, for a channel.
pub open spec fn stand_at(
    out: Seq<(String, String)>,
    at: int,
    channel: Seq<char>,
    lines: Seq<Seq<char>>,
) -> bool {
    &&& 0 <= at && at + lines.len() <= out.len()
    &&& forall|i: int|
        at <= i < at + lines.len() ==> (#[trigger] out[i]).0@ == channel && out[i].1@ == lines[i
            - at]
}

/// A poll loses nothing: of a bucket that held changes and is empty afterwards, every
/// line is in the output, for its channel, and the lines follow one another in order.
pub proof fn poll_loses_nothing(
    q: &mut ModeQueue,
    all: bool,
    out: Vec<(String, String)>,
    channel: Seq<char>,
    kind: QueueKind,
)
    requires
        call_ensures(ModeQueue::poll_due, (q, all), out),
        mode_queue::pending_in(old(q)@, channel, kind).len() > 0,
        mode_queue::pending_in(final(q)@, channel, kind).len() == 0,
    ensures
        ({
            let lines = mode_queue::flushed(
                channel,
                mode_queue::pending_in(old(q)@, channel, kind),
            );
            exists|at: int| #[trigger] stand_at(out@, at, channel, lines)
        }),
{
    let queue = old(q)@;
    let names = order::listing(queue.dom());
    lemma_after_poll(queue, all, channel, kind);
    order::listing_of_finite(queue.dom());
    assert(queue.contains_key(channel));
    assert(names.to_set().contains(channel));
    let n = names.index_of(channel);
    let views = mode_queue::pair_views(out@);
    let lines = mode_queue::flushed(channel, mode_queue::pending_in(queue, channel, kind));
    let at = lemma_sent(queue, names, n, all, kind);
    assert forall|i: int| at <= i < at + lines.len() implies (#[trigger] out@[i]).0@ == channel
        && out@[i].1@ == lines[i - at] by {
        assert(views[i] == (out@[i].0@, out@[i].1@));
    }
    assert(views.len() == out@.len());
    assert(stand_at(out@, at, channel, lines));
}

/// Where the lines of a bucket stand in the output of a poll.
proof fn lemma_sent(
    q: QueueView,
    names: Seq<Seq<char>>,
    n: int,
    all: bool,
    kind: QueueKind,
) -> (at: int)
    requires
        0 <= n < names.len(),
    ensures
        ({
            let out = mode_queue::poll_output(q, names, all);
            let lines = mode_queue::due_lines(
                names[n],
                mode_queue::pending_in(q, names[n], kind),
                all,
            );
            &&& 0 <= at && at + lines.len() <= out.len()
            &&& forall|i: int|
                at <= i < at + lines.len() ==> #[trigger] out[i] == (names[n], lines[i - at])
        }),
    decreases names.len(),
{
    let rest = names.drop_last();
    let out = mode_queue::poll_output(q, names, all);
    let before = mode_queue::poll_output(q, rest, all);
    if n < names.len() - 1 {
        assert(rest[n] == names[n]);
        let at = lemma_sent(q, rest, n, all, kind);
        let lines = mode_queue::due_lines(
            names[n],
            mode_queue::pending_in(q, names[n], kind),
            all,
        );
        assert forall|i: int| at <= i < at + lines.len() implies #[trigger] out[i] == (
            names[n],
            lines[i - at],
        ) by {
            assert(out[i] == before[i]);
        }
        at
    } else {
        let c = names.last();
        let b = mode_queue::buckets_of(q, c);
        let first = mode_queue::due_lines(c, b.standard, all);
        match kind {
            QueueKind::Standard => before.len() as int,
            QueueKind::Cookie => (before.len() + first.len()) as int,
        }
    }
}

/// A poll invents nothing: every line of its output is a line of a bucket that held
/// changes, for the channel of that bucket, and that bucket is empty afterwards.
pub proof fn poll_invents_nothing(q: &mut ModeQueue, all: bool, out: Vec<(String, String)>, k: int)
    requires
        call_ensures(ModeQueue::poll_due, (q, all), out),
        0 <= k < out@.len(),
    ensures
        exists|kind: QueueKind|
            mode_queue::flushed(
                out@[k].0@,
                #[trigger] mode_queue::pending_in(old(q)@, out@[k].0@, kind),
            ).contains(out@[k].1@) && mode_queue::pending_in(final(q)@, out@[k].0@, kind).len()
                == 0,
{
    let queue = old(q)@;
    let names = order::listing(queue.dom());
    let views = mode_queue::pair_views(out@);
    assert(views[k] == (out@[k].0@, out@[k].1@));
    let kind = lemma_source(queue, names, all, k);
    lemma_after_poll(queue, all, views[k].0, kind);
    assert(mode_queue::flushed(
        out@[k].0@,
        mode_queue::pending_in(queue, out@[k].0@, kind),
    ).contains(out@[k].1@));
}

proof fn lemma_source(q: QueueView, names: Seq<Seq<char>>, all: bool, k: int) -> (kind: QueueKind)
    requires
        0 <= k < mode_queue::poll_output(q, names, all).len(),
    ensures
        ({
            let (channel, line) = mode_queue::poll_output(q, names, all)[k];
            let changes = mode_queue::pending_in(q, channel, kind);
            mode_queue::is_due(changes, all) && mode_queue::flushed(channel, changes).contains(line)
        }),
    decreases names.len(),
{
    let out = mode_queue::poll_output(q, names, all);
    let before = mode_queue::poll_output(q, names.drop_last(), all);
    if k < before.len() {
        assert(out[k] == before[k]);
        lemma_source(q, names.drop_last(), all, k)
    } else {
        let c = names.last();
        let b = mode_queue::buckets_of(q, c);
        let first = mode_queue::due_lines(c, b.standard, all);
        let second = mode_queue::due_lines(c, b.cookie, all);
        if k < before.len() + first.len() {
            assert(out[k] == (c, first[k - before.len()]));
            QueueKind::Standard
        } else {
            assert(out[k] == (c, second[k - before.len() - first.len()]));
            QueueKind::Cookie
        }
    }
}

/// The output of a poll goes channel by channel: what is sent for some channels and
/// then others is what is sent for the first and then for the others.
pub proof fn poll_goes_channel_by_channel(
    q: QueueView,
    a: Seq<Seq<char>>,
    b: Seq<Seq<char>>,
    all: bool,
)
    ensures
        mode_queue::poll_output(q, a + b, all) == mode_queue::poll_output(q, a, all)
            + mode_queue::poll_output(q, b, all),
    decreases b.len(),
{
    if b.len() == 0 {
        assert(a + b =~= a);
        assert(mode_queue::poll_output(q, a + b, all) =~= mode_queue::poll_output(q, a, all)
            + mode_queue::poll_output(q, b, all));
    } else {
        poll_goes_channel_by_channel(q, a, b.drop_last(), all);
        assert((a + b).drop_last() =~= a + b.drop_last());
        assert((a + b).last() == b.last());
        assert(mode_queue::poll_output(q, a + b, all) =~= mode_queue::poll_output(q, a, all)
            + mode_queue::poll_output(q, b, all));
    }
}

/// For one channel a tick sends as many lines as its two buckets fill, no more.
pub proof fn poll_sends_each_line_once(q: QueueView, channel: Seq<char>)
    ensures
        mode_queue::poll_output(q, seq![channel], true).len() == mode_queue::flushed(
            channel,
            mode_queue::pending_in(q, channel, QueueKind::Standard),
        ).len() + mode_queue::flushed(
            channel,
            mode_queue::pending_in(q, channel, QueueKind::Cookie),
        ).len(),
{
    let none = Seq::<Seq<char>>::empty();
    assert(seq![channel].drop_last() =~= none);
    assert(mode_queue::poll_output(q, none, true).len() == 0);
    mode_queue::flush_line_count(channel, Seq::empty());
    let b = mode_queue::buckets_of(q, channel);
    if b.standard.len() == 0 {
        assert(b.standard =~= Seq::empty());
    }
    if b.cookie.len() == 0 {
        assert(b.cookie =~= Seq::empty());
    }
}

// ----- the order of changes -----------------------------------------------------

/// Changes of one direction keep the order in which they were queued.
pub proof fn order_of_queueing_is_kept(a: Seq<ChangeView>, b: Seq<ChangeView>, d: Direction)
    ensures
        mode_queue::only(a + b, d) == mode_queue::only(a, d) + mode_queue::only(b, d),
    decreases b.len(),
{
    if b.len() == 0 {
        assert(a + b =~= a);
        assert(mode_queue::only(a + b, d) =~= mode_queue::only(a, d) + mode_queue::only(b, d));
    } else {
        order_of_queueing_is_kept(a, b.drop_last(), d);
        assert((a + b).drop_last() =~= a + b.drop_last());
        assert(mode_queue::only(a + b, d) =~= mode_queue::only(a, d) + mode_queue::only(b, d));
    }
}

/// Changes of one direction are taken as they are, and no others.
pub proof fn one_direction_is_picked(c: ChangeView, d: Direction)
    ensures
        c.direction == d ==> mode_queue::only(seq![c], d) == seq![c],
        c.direction != d ==> mode_queue::only(seq![c], d).len() == 0,
{
    reveal_with_fuel(mode_queue::only, 2);
    assert(seq![c].drop_last() =~= Seq::empty());
    assert(Seq::empty().push(c) =~= seq![c]);
}

// ----- what a line says ---------------------------------------------------------

/// The changes that mode letters stand for, read from left to right: each letter goes
/// the way of the nearest sign before it.
pub open spec fn read_letters(s: Seq<char>, d: Direction) -> Seq<(Direction, char)>
    decreases s.len(),
{
    if s.len() == 0 {
        Seq::empty()
    } else if s[0] == '+' {
        read_letters(s.drop_first(), Direction::Add)
    } else if s[0] == '-' {
        read_letters(s.drop_first(), Direction::Remove)
    } else {
        seq![(d, s[0])] + read_letters(s.drop_first(), d)
    }
}

/// The direction that holds behind mode letters.
pub open spec fn direction_after(s: Seq<char>, d: Direction) -> Direction
    decreases s.len(),
{
    if s.len() == 0 {
        d
    } else if s.last() == '+' {
        Direction::Add
    } else if s.last() == '-' {
        Direction::Remove
    } else {
        direction_after(s.drop_last(), d)
    }
}

proof fn lemma_read_push(s: Seq<char>, c: char, d: Direction)
    ensures
        c == '+' || c == '-' ==> read_letters(s.push(c), d) == read_letters(s, d),
        c != '+' && c != '-' ==> read_letters(s.push(c), d) == read_letters(s, d).push(
            (direction_after(s, d), c),
        ),
    decreases s.len(),
{
    let t = s.push(c);
    if s.len() == 0 {
        assert(t.drop_first() =~= Seq::empty());
        reveal_with_fuel(read_letters, 2);
        if c != '+' && c != '-' {
            assert(read_letters(t, d) =~= read_letters(s, d).push((d, c)));
        }
    } else {
        let r = s.drop_first();
        assert(t.drop_first() =~= r.push(c));
        let e = if s[0] == '+' {
            Direction::Add
        } else if s[0] == '-' {
            Direction::Remove
        } else {
            d
        };
        lemma_read_push(r, c, e);
        lemma_direction_first(s, d, e);
        if c != '+' && c != '-' {
            assert(read_letters(t, d) =~= read_letters(s, d).push((direction_after(s, d), c)));
        } else {
            assert(read_letters(t, d) =~= read_letters(s, d));
        }
    }
}

proof fn lemma_direction_first(s: Seq<char>, d: Direction, e: Direction)
    requires
        s.len() > 0,
        s[0] == '+' ==> e == Direction::Add,
        s[0] == '-' ==> e == Direction::Remove,
        s[0] != '+' && s[0] != '-' ==> e == d,
    ensures
        direction_after(s, d) == direction_after(s.drop_first(), e),
    decreases s.len(),
{
    reveal_with_fuel(direction_after, 2);
    if s.len() > 1 {
        lemma_direction_first(s.drop_last(), d, e);
        assert(s.drop_last().drop_first() =~= s.drop_first().drop_last());
    } else {
        assert(s.drop_first() =~= Seq::empty());
        assert(s.drop_last() =~= Seq::empty());
    }
}

/// The letters of a line, read from left to right, are the changes of the line: each
/// with its own letter, in its own direction, in order.
pub proof fn letters_can_be_read_back(chunk: Seq<ChangeView>, d: Direction)
    requires
        forall|i: int|
            0 <= i < chunk.len() ==> (#[trigger] chunk[i]).mode != '+' && chunk[i].mode != '-',
    ensures
        read_letters(mode_queue::letters(chunk), d) == Seq::new(
            chunk.len(),
            |i: int| (chunk[i].direction, chunk[i].mode),
        ),
        chunk.len() > 0 ==> direction_after(mode_queue::letters(chunk), d)
            == chunk.last().direction,
    decreases chunk.len(),
{
    let want = Seq::new(chunk.len(), |i: int| (chunk[i].direction, chunk[i].mode));
    if chunk.len() == 0 {
        assert(read_letters(mode_queue::letters(chunk), d) =~= want);
    } else {
        let c = chunk.last();
        assert(chunk[chunk.len() - 1] == c);
        let t = chunk.drop_last();
        letters_can_be_read_back(t, d);
        let before = mode_queue::letters(t);
        lemma_read_push(before, c.mode, d);
        let s = mode_queue::sign(c.direction);
        lemma_read_push(before, s, d);
        lemma_read_push(before.push(s), c.mode, d);
        assert(before.push(s).drop_last() =~= before);
        assert(before.push(c.mode).drop_last() =~= before);
        assert(before.push(s).push(c.mode).drop_last() =~= before.push(s));
        assert(direction_after(before.push(s), d) == c.direction);
        if chunk.len() > 1 {
            assert(t.last() == chunk[chunk.len() - 2]);
        }
        assert(read_letters(mode_queue::letters(chunk), d) =~= want);
    }
}

/// The arguments of a line are those of its changes, in order, and no others.
pub proof fn arguments_follow_their_letters(a: Seq<ChangeView>, c: ChangeView)
    ensures
        mode_queue::arguments(Seq::empty()).len() == 0,
        c.arg is None ==> mode_queue::arguments(a.push(c)) == mode_queue::arguments(a),
        c.arg matches Some(x) ==> mode_queue::arguments(a.push(c)) == mode_queue::arguments(a).push(
            x,
        ),
{
    assert(a.push(c).drop_last() =~= a);
}

/// A line names the channel, then the letters, then the arguments with spaces between
/// them, and ends behind the letters if there are none.
pub proof fn line_is_channel_letters_arguments(channel: Seq<char>, chunk: Seq<ChangeView>)
    ensures
        ({
            let line = mode_queue::mode_line(channel, chunk);
            let args = mode_queue::arguments(chunk);
            let head = "MODE "@ + channel + " "@ + mode_queue::letters(chunk);
            &&& args.len() == 0 ==> line == head
            &&& args.len() > 0 ==> line == head + " "@ + text::joined(args)
        }),
{
    reveal_strlit(" ");
    let line = mode_queue::mode_line(channel, chunk);
    let args = mode_queue::arguments(chunk);
    let head = "MODE "@ + channel + " "@ + mode_queue::letters(chunk);
    assert(" "@ =~= seq![' ']);
    if args.len() == 0 {
        assert(line =~= head);
    } else {
        assert(line =~= head + " "@ + text::joined(args));
    }
}

/// A line holds at most six changes, and a flush of at most six takes one line.
pub proof fn six_changes_fit_a_line(channel: Seq<char>, changes: Seq<ChangeView>)
    ensures
        MAX_MODES_PER_LINE == 6,
        changes.len() == 0 ==> mode_queue::flushed(channel, changes).len() == 0,
        0 < changes.len() <= 6 ==> mode_queue::flushed(channel, changes).len() == 1
            && mode_queue::flushed(channel, changes)[0] == mode_queue::mode_line(
            channel,
            mode_queue::ordered(changes),
        ),
{
    mode_queue::flush_line_count(channel, changes);
    mode_queue::ordering_keeps_every_change(changes);
    if changes.len() > 0 {
        mode_queue::lines_are_short(channel, mode_queue::ordered(changes), 0);
        let all = mode_queue::ordered(changes);
        assert(all.subrange(0, all.len() as int) =~= all);
    }
}

/// Words joined with spaces are put behind one another, with a space between two.
pub proof fn joining_puts_a_space_between(l: Seq<Seq<char>>, x: Seq<char>)
    ensures
        text::joined(Seq::empty()).len() == 0,
        text::joined(seq![x]) == x,
        l.len() > 0 ==> text::joined(l.push(x)) == text::joined(l).push(' ') + x,
{
    assert(l.push(x).drop_last() =~= l);
}

} // verus!
