//! Outbound MODE batcher.
//!
//! Mode changes are accumulated per channel and flushed in lines of up to
//! [`MAX_MODES_PER_LINE`] modes. Within a flush:
//!
//! - removals are emitted before additions, each in the order in which they
//!   were queued;
//! - the two queues of a channel, `Standard` and `Cookie`, are never mixed, so
//!   an op that carries a cookie stays on lines of its own;
//! - a [`Priority::Quick`] change makes its queue due at once.
//!
//! The queue does not know which modes take arguments: callers attach an `arg`
//! if and only if the mode takes one.

use crate::order;
use crate::text;
use crate::text_map::TextMap;
use crate::text_set;
use vstd::prelude::*;
use vstd::string::*;

verus! {

/// Maximum modes per outbound `MODE` line.
pub const MAX_MODES_PER_LINE: usize = 6;

/// Which queue a change belongs to.
#[derive(Debug, Clone, Copy, PartialEq, Eq, PartialOrd, Ord, Hash, Structural)]
pub enum QueueKind {
    Standard,
    Cookie,
}

/// Priority a mode change carries.
///
/// `Normal` modes are flushed on the next periodic tick; `Quick` modes are due
/// immediately.
#[derive(Debug, Clone, Copy, PartialEq, Eq, Structural)]
pub enum Priority {
    Normal,
    Quick,
}

/// `+` (add) or `-` (remove).
#[derive(Debug, Clone, Copy, PartialEq, Eq, Structural)]
pub enum Direction {
    Add,
    Remove,
}

/// The sign of a direction.
pub open spec fn sign(d: Direction) -> char {
    match d {
        Direction::Add => '+',
        Direction::Remove => '-',
    }
}

impl Direction {
    fn as_char(self) -> (c: char)
        ensures
            c == sign(self),
    {
        match self {
            Direction::Add => '+',
            Direction::Remove => '-',
        }
    }
}

/// One queued mode change.
#[derive(Debug, Clone, PartialEq, Eq)]
pub struct ModeChange {
    pub direction: Direction,
    pub mode: char,
    pub arg: Option<String>,
    pub priority: Priority,
}

/// What a [`ModeChange`] says.
pub struct ChangeView {
    pub direction: Direction,
    pub mode: char,
    pub arg: Option<Seq<char>>,
    pub priority: Priority,
}

impl View for ModeChange {
    type V = ChangeView;

    open spec fn view(&self) -> ChangeView {
        ChangeView {
            direction: self.direction,
            mode: self.mode,
            arg: text::opt_view(self.arg),
            priority: self.priority,
        }
    }
}

/// The views of a list of changes.
pub open spec fn change_views(v: Seq<ModeChange>) -> Seq<ChangeView> {
    Seq::new(v.len(), |i: int| v[i]@)
}

/// The views of a list of borrowed changes.
pub open spec fn change_ref_views(v: Seq<&ModeChange>) -> Seq<ChangeView> {
    Seq::new(v.len(), |i: int| v[i]@)
}

impl ModeChange {
    /// A `+mode` change with an optional argument.
    #[must_use]
    pub fn add(mode: char, arg: Option<String>) -> (c: Self)
        ensures
            c@ == (ChangeView {
                direction: Direction::Add,
                mode,
                arg: text::opt_view(arg),
                priority: Priority::Normal,
            }),
    {
        ModeChange { direction: Direction::Add, mode, arg, priority: Priority::Normal }
    }

    /// A `-mode` change with an optional argument.
    #[must_use]
    pub fn remove(mode: char, arg: Option<String>) -> (c: Self)
        ensures
            c@ == (ChangeView {
                direction: Direction::Remove,
                mode,
                arg: text::opt_view(arg),
                priority: Priority::Normal,
            }),
    {
        ModeChange { direction: Direction::Remove, mode, arg, priority: Priority::Normal }
    }

    /// The same change with `Quick` priority.
    #[must_use]
    pub fn with_quick_priority(self) -> (c: Self)
        ensures
            c@ == (ChangeView { priority: Priority::Quick, ..self@ }),
    {
        ModeChange {
            direction: self.direction,
            mode: self.mode,
            arg: self.arg,
            priority: Priority::Quick,
        }
    }
}

// ----- lines -----------------------------------------------------------------

/// The changes of one direction, in order.
pub open spec fn only(changes: Seq<ChangeView>, d: Direction) -> Seq<ChangeView>
    decreases changes.len(),
{
    if changes.len() == 0 {
        Seq::empty()
    } else if changes.last().direction == d {
        only(changes.drop_last(), d).push(changes.last())
    } else {
        only(changes.drop_last(), d)
    }
}

/// Removals first, then additions, each in the order they were queued.
pub open spec fn ordered(changes: Seq<ChangeView>) -> Seq<ChangeView> {
    only(changes, Direction::Remove) + only(changes, Direction::Add)
}

/// The mode letters of a line: a sign wherever the direction changes.
pub open spec fn letters(chunk: Seq<ChangeView>) -> Seq<char>
    decreases chunk.len(),
{
    if chunk.len() == 0 {
        Seq::empty()
    } else {
        let c = chunk.last();
        let before = letters(chunk.drop_last());
        if chunk.len() > 1 && chunk[chunk.len() - 2].direction == c.direction {
            before.push(c.mode)
        } else {
            before.push(sign(c.direction)).push(c.mode)
        }
    }
}

/// The arguments of a line, in the order of their letters.
pub open spec fn arguments(chunk: Seq<ChangeView>) -> Seq<Seq<char>>
    decreases chunk.len(),
{
    if chunk.len() == 0 {
        Seq::empty()
    } else {
        match chunk.last().arg {
            Some(a) => arguments(chunk.drop_last()).push(a),
            None => arguments(chunk.drop_last()),
        }
    }
}

/// `MODE <channel> <letters>`, and the arguments if there are any.
pub open spec fn mode_line(channel: Seq<char>, chunk: Seq<ChangeView>) -> Seq<char> {
    let head = "MODE "@ + channel + seq![' '] + letters(chunk);
    if arguments(chunk).len() == 0 {
        head
    } else {
        head + seq![' '] + text::joined(arguments(chunk))
    }
}

/// The lines for a list of changes: full lines first.
pub open spec fn mode_lines(channel: Seq<char>, changes: Seq<ChangeView>) -> Seq<Seq<char>>
    decreases changes.len(),
{
    if changes.len() == 0 {
        Seq::empty()
    } else if changes.len() <= MAX_MODES_PER_LINE {
        seq![mode_line(channel, changes)]
    } else {
        seq![mode_line(channel, changes.take(MAX_MODES_PER_LINE as int))] + mode_lines(
            channel,
            changes.skip(MAX_MODES_PER_LINE as int),
        )
    }
}

/// The lines that flush the changes `changes`.
pub open spec fn flushed(channel: Seq<char>, changes: Seq<ChangeView>) -> Seq<Seq<char>> {
    mode_lines(channel, ordered(changes))
}

/// The changes of `changes` that go in the direction `d`.
fn pick<'a>(changes: &'a Vec<ModeChange>, d: Direction, out: &mut Vec<&'a ModeChange>)
    ensures
        change_ref_views(final(out)@) == change_ref_views(old(out)@) + only(
            change_views(changes@),
            d,
        ),
{
    let ghost vs = change_views(changes@);
    let ghost start = change_ref_views(out@);
    let mut i: usize = 0;
    assert(vs.take(0) =~= Seq::empty());
    assert(start + only(vs.take(0), d) =~= start);
    while i < changes.len()
        invariant
            i <= changes.len(),
            vs == change_views(changes@),
            change_ref_views(out@) == start + only(vs.take(i as int), d),
        decreases changes.len() - i,
    {
        let ghost before = change_ref_views(out@);
        proof {
            assert(vs.take(i + 1).drop_last() =~= vs.take(i as int));
            assert(vs.take(i + 1).last() == changes@[i as int]@);
        }
        if changes[i].direction == d {
            out.push(&changes[i]);
            assert(change_ref_views(out@) =~= before.push(changes@[i as int]@));
        }
        i = i + 1;
        assert(change_ref_views(out@) =~= start + only(vs.take(i as int), d));
    }
    assert(vs.take(vs.len() as int) =~= vs);
}

/// Serialize the changes queued for `channel` into `MODE` lines: removals
/// before additions, at most [`MAX_MODES_PER_LINE`] modes per line, arguments in
/// the order of the mode letters.
pub fn serialize_lines(channel: &str, changes: &Vec<ModeChange>) -> (lines: Vec<String>)
    ensures
        text::views(lines@) == flushed(channel@, change_views(changes@)),
{
    let mut list: Vec<&ModeChange> = Vec::new();
    pick(changes, Direction::Remove, &mut list);
    pick(changes, Direction::Add, &mut list);
    let ghost all = change_ref_views(list@);
    assert(all =~= ordered(change_views(changes@)));
    let mut lines: Vec<String> = Vec::new();
    let mut start: usize = 0;
    assert(all.skip(0) =~= all);
    assert(text::views(lines@) + mode_lines(channel@, all.skip(0)) =~= mode_lines(channel@, all));
    while start < list.len()
        invariant
            start <= list.len(),
            all == change_ref_views(list@),
            text::views(lines@) + mode_lines(channel@, all.skip(start as int)) == mode_lines(
                channel@,
                all,
            ),
        decreases list.len() - start,
    {
        let end: usize = if list.len() - start <= MAX_MODES_PER_LINE {
            list.len()
        } else {
            start + MAX_MODES_PER_LINE
        };
        let ghost before = text::views(lines@);
        let ghost rest = all.skip(start as int);
        let line = format_one_line(channel, &list, start, end);
        let ghost l = line@;
        lines.push(line);
        proof {
            assert(text::views(lines@) =~= before.push(l));
            assert(all.subrange(start as int, end as int) =~= rest.take(end - start));
            if rest.len() <= MAX_MODES_PER_LINE {
                assert(rest.take(end - start) =~= rest);
                assert(all.skip(end as int) =~= Seq::empty());
            } else {
                assert(rest.skip(MAX_MODES_PER_LINE as int) =~= all.skip(end as int));
            }
            assert(text::views(lines@) + mode_lines(channel@, all.skip(end as int)) =~= before
                + mode_lines(channel@, rest));
        }
        start = end;
    }
    assert(text::views(lines@) =~= mode_lines(channel@, all));
    lines
}

/// One `MODE` line for the changes `list[from..to]`.
fn format_one_line(channel: &str, list: &Vec<&ModeChange>, from: usize, to: usize) -> (line: String)
    requires
        from < to <= list@.len(),
    ensures
        line@ == mode_line(
            channel@,
            change_ref_views(list@).subrange(from as int, to as int),
        ),
{
    let ghost chunk = change_ref_views(list@).subrange(from as int, to as int);
    let mut mode_str = String::new();
    let mut args: Vec<String> = Vec::new();
    let mut last_dir: Option<Direction> = None;
    let mut i: usize = from;
    assert(chunk.take(0) =~= Seq::empty());
    assert(text::views(args@) =~= Seq::empty());
    while i < to
        invariant
            from <= i <= to <= list@.len(),
            chunk == change_ref_views(list@).subrange(from as int, to as int),
            mode_str@ == letters(chunk.take(i - from)),
            text::views(args@) == arguments(chunk.take(i - from)),
            i == from ==> last_dir is None,
            i > from ==> last_dir == Some(chunk[i - from - 1].direction),
        decreases to - i,
    {
        let ch = list[i];
        let ghost before = text::views(args@);
        proof {
            assert(chunk.take(i - from + 1).drop_last() =~= chunk.take(i - from));
            assert(chunk.take(i - from + 1).last() == ch@);
            if i > from {
                assert(chunk.take(i - from + 1)[i - from - 1] == chunk[i - from - 1]);
            }
        }
        let same = match last_dir {
            Some(d) => d == ch.direction,
            None => false,
        };
        if !same {
            mode_str.push(ch.direction.as_char());
            last_dir = Some(ch.direction);
        }
        mode_str.push(ch.mode);
        if let Some(arg) = &ch.arg {
            args.push(arg.clone());
            assert(text::views(args@) =~= before.push(arg@));
        }
        i = i + 1;
    }
    assert(chunk.take(to - from) =~= chunk);
    let mut line = text::owned("MODE ");
    line.append(channel);
    line.push(' ');
    line.append(mode_str.as_str());
    if args.len() > 0 {
        line.push(' ');
        line.append(text::join(&args).as_str());
    }
    assert(line@ =~= mode_line(channel@, chunk));
    line
}

// ----- the queue -------------------------------------------------------------

/// The pending changes of one channel.
#[derive(Debug, PartialEq, Eq)]
pub struct Buckets {
    standard: Vec<ModeChange>,
    cookie: Vec<ModeChange>,
}

/// The pending changes of one channel, by queue.
pub struct BucketsView {
    pub standard: Seq<ChangeView>,
    pub cookie: Seq<ChangeView>,
}

impl View for Buckets {
    type V = BucketsView;

    closed spec fn view(&self) -> BucketsView {
        BucketsView {
            standard: change_views(self.standard@),
            cookie: change_views(self.cookie@),
        }
    }
}

impl BucketsView {
    /// The pending changes of one queue.
    pub open spec fn of(self, kind: QueueKind) -> Seq<ChangeView> {
        match kind {
            QueueKind::Standard => self.standard,
            QueueKind::Cookie => self.cookie,
        }
    }

    /// These buckets with other changes in one queue.
    pub open spec fn with(self, kind: QueueKind, changes: Seq<ChangeView>) -> BucketsView {
        match kind {
            QueueKind::Standard => BucketsView { standard: changes, ..self },
            QueueKind::Cookie => BucketsView { cookie: changes, ..self },
        }
    }

    /// Whether nothing is pending.
    pub open spec fn is_empty(self) -> bool {
        self.standard.len() == 0 && self.cookie.len() == 0
    }
}

/// Buckets with nothing pending.
pub open spec fn no_buckets() -> BucketsView {
    BucketsView { standard: Seq::empty(), cookie: Seq::empty() }
}

/// What is pending in a queue, by channel.
pub type QueueView = Map<Seq<char>, BucketsView>;

/// The buckets of a channel.
pub open spec fn buckets_of(q: QueueView, channel: Seq<char>) -> BucketsView {
    if q.contains_key(channel) {
        q[channel]
    } else {
        no_buckets()
    }
}

/// The changes pending for a channel in one queue.
pub open spec fn pending_in(q: QueueView, channel: Seq<char>, kind: QueueKind) -> Seq<ChangeView> {
    buckets_of(q, channel).of(kind)
}

/// The queue in which the channel has the buckets `b`; a channel with nothing
/// pending is not kept.
pub open spec fn with_buckets(q: QueueView, channel: Seq<char>, b: BucketsView) -> QueueView {
    if b.is_empty() {
        q.remove(channel)
    } else {
        q.insert(channel, b)
    }
}

/// Whether a bucket is to be sent now: on a periodic tick (`all`) if it holds
/// anything, and otherwise if it holds a `Quick` change or fills a line.
pub open spec fn is_due(changes: Seq<ChangeView>, all: bool) -> bool {
    if all {
        changes.len() > 0
    } else {
        changes.len() >= MAX_MODES_PER_LINE || exists|i: int|
            0 <= i < changes.len() && (#[trigger] changes[i]).priority == Priority::Quick
    }
}

/// What a poll leaves pending in a bucket.
pub open spec fn held(changes: Seq<ChangeView>, all: bool) -> Seq<ChangeView> {
    if is_due(changes, all) {
        Seq::empty()
    } else {
        changes
    }
}

/// What a poll leaves pending for a channel.
pub open spec fn held_buckets(b: BucketsView, all: bool) -> BucketsView {
    BucketsView { standard: held(b.standard, all), cookie: held(b.cookie, all) }
}

/// The lines a poll sends for one bucket.
pub open spec fn due_lines(channel: Seq<char>, changes: Seq<ChangeView>, all: bool) -> Seq<
    Seq<char>,
> {
    if is_due(changes, all) {
        flushed(channel, changes)
    } else {
        Seq::empty()
    }
}

/// The lines `lines`, each with the channel it is for.
pub open spec fn for_channel(channel: Seq<char>, lines: Seq<Seq<char>>) -> Seq<
    (Seq<char>, Seq<char>),
> {
    Seq::new(lines.len(), |i: int| (channel, lines[i]))
}

/// What a poll sends for the channels `channels`: channel by channel, the
/// standard queue before the cookie queue.
pub open spec fn poll_output(q: QueueView, channels: Seq<Seq<char>>, all: bool) -> Seq<
    (Seq<char>, Seq<char>),
>
    decreases channels.len(),
{
    if channels.len() == 0 {
        Seq::empty()
    } else {
        let c = channels.last();
        let b = buckets_of(q, c);
        poll_output(q, channels.drop_last(), all) + for_channel(
            c,
            due_lines(c, b.standard, all),
        ) + for_channel(c, due_lines(c, b.cookie, all))
    }
}

/// What a poll leaves in the queue.
pub open spec fn after_poll(q: QueueView, all: bool) -> QueueView {
    Map::new(
        |c: Seq<char>| q.contains_key(c) && !held_buckets(q[c], all).is_empty(),
        |c: Seq<char>| held_buckets(q[c], all),
    )
}

/// What is left in the queue when a poll has come past the channels `done`.
spec fn partly_polled(q: QueueView, done: Set<Seq<char>>, all: bool) -> QueueView {
    Map::new(
        |c: Seq<char>|
            q.contains_key(c) && (done.contains(c) ==> !held_buckets(q[c], all).is_empty()),
        |c: Seq<char>|
            if done.contains(c) {
                held_buckets(q[c], all)
            } else {
                q[c]
            },
    )
}

/// The views of a list of (channel, line) pairs.
pub open spec fn pair_views(v: Seq<(String, String)>) -> Seq<(Seq<char>, Seq<char>)> {
    Seq::new(v.len(), |i: int| (v[i].0@, v[i].1@))
}

/// Batched mode-change queue. Its view is what is pending, by channel.
#[derive(Debug, PartialEq, Eq)]
pub struct ModeQueue {
    buckets: TextMap<Buckets>,
}

impl View for ModeQueue {
    type V = QueueView;

    closed spec fn view(&self) -> QueueView {
        self.buckets@
    }
}

impl Default for ModeQueue {
    /// An empty queue.
    fn default() -> (q: Self)
        ensures
            q@ == Map::<Seq<char>, BucketsView>::empty(),
    {
        ModeQueue::new()
    }
}

impl ModeQueue {
    /// An empty queue.
    #[must_use]
    pub fn new() -> (q: Self)
        ensures
            q@ == Map::<Seq<char>, BucketsView>::empty(),
    {
        ModeQueue { buckets: TextMap::new() }
    }

    /// Take the buckets of a channel out of the queue.
    fn take(&mut self, channel: &str) -> (b: Buckets)
        ensures
            b@ == buckets_of(old(self)@, channel@),
            final(self)@ == old(self)@.remove(channel@),
    {
        match self.buckets.remove(channel) {
            Some(b) => b,
            None => {
                let b = Buckets { standard: Vec::new(), cookie: Vec::new() };
                assert(b@.standard =~= no_buckets().standard);
                assert(b@.cookie =~= no_buckets().cookie);
                b
            },
        }
    }

    /// Put the buckets of a channel back, unless nothing is pending in them.
    fn put(&mut self, channel: &str, b: Buckets)
        ensures
            b@.is_empty() ==> final(self)@ == old(self)@,
            !b@.is_empty() ==> final(self)@ == old(self)@.insert(channel@, b@),
    {
        if b.standard.len() > 0 || b.cookie.len() > 0 {
            self.buckets.insert(text::owned(channel), b);
        }
    }

    /// Enqueue a single mode change for `channel` in the named queue.
    pub fn enqueue(&mut self, channel: &str, kind: QueueKind, change: ModeChange)
        ensures
            final(self)@ == old(self)@.insert(
                channel@,
                buckets_of(old(self)@, channel@).with(
                    kind,
                    pending_in(old(self)@, channel@, kind).push(change@),
                ),
            ),
    {
        let ghost q = self@;
        let mut b = self.take(channel);
        let ghost before = b@;
        match kind {
            QueueKind::Standard => {
                b.standard.push(change);
                assert(b@.standard =~= before.standard.push(change@));
            },
            QueueKind::Cookie => {
                b.cookie.push(change);
                assert(b@.cookie =~= before.cookie.push(change@));
            },
        }
        let ghost after = b@;
        self.put(channel, b);
        assert(q.remove(channel@).insert(channel@, after) =~= q.insert(channel@, after));
    }

    /// Number of pending changes in one bucket.
    #[must_use]
    pub fn pending(&self, channel: &str, kind: QueueKind) -> (n: usize)
        ensures
            n == pending_in(self@, channel@, kind).len(),
    {
        match self.buckets.get(channel) {
            Some(b) => match kind {
                QueueKind::Standard => b.standard.len(),
                QueueKind::Cookie => b.cookie.len(),
            },
            None => 0,
        }
    }

    /// Drain all pending changes for `(channel, kind)` and serialize them as
    /// `MODE` lines. No lines come out of a bucket with no pending changes.
    pub fn flush(&mut self, channel: &str, kind: QueueKind) -> (lines: Vec<String>)
        ensures
            text::views(lines@) == flushed(channel@, pending_in(old(self)@, channel@, kind)),
            final(self)@ == with_buckets(
                old(self)@,
                channel@,
                buckets_of(old(self)@, channel@).with(kind, Seq::empty()),
            ),
    {
        let ghost q = self@;
        let b = self.take(channel);
        let ghost before = b@;
        let (rest, lines) = match kind {
            QueueKind::Standard => {
                let lines = serialize_lines(channel, &b.standard);
                (Buckets { standard: Vec::new(), cookie: b.cookie }, lines)
            },
            QueueKind::Cookie => {
                let lines = serialize_lines(channel, &b.cookie);
                (Buckets { standard: b.standard, cookie: Vec::new() }, lines)
            },
        };
        let ghost after = rest@;
        proof {
            let want = before.with(kind, Seq::empty());
            assert(after.standard =~= want.standard);
            assert(after.cookie =~= want.cookie);
        }
        self.put(channel, rest);
        assert(q.remove(channel@).insert(channel@, after) =~= q.insert(channel@, after));
        lines
    }

    /// The lines that should be sent right now, with the channel each is for.
    ///
    /// - On a periodic tick pass `true`: every non-empty bucket is flushed.
    /// - After an enqueue pass `false`: only buckets with a `Quick` change, or
    ///   with enough changes to fill a line, are flushed.
    pub fn poll_due(&mut self, flush_all_buckets: bool) -> (out: Vec<(String, String)>)
        ensures
            pair_views(out@) == poll_output(
                old(self)@,
                order::listing(old(self)@.dom()),
                flush_all_buckets,
            ),
            final(self)@ == after_poll(old(self)@, flush_all_buckets),
            old(self)@.dom().finite(),
    {
        let channels = self.buckets.keys();
        let ghost q = self@;
        let ghost names = text::views(channels@);
        proof {
            lemma_names(q, channels@);
        }
        let mut out: Vec<(String, String)> = Vec::new();
        let mut i: usize = 0;
        assert(names.take(0) =~= Seq::empty());
        assert(pair_views(out@) =~= Seq::empty());
        assert(names.take(0).to_set() =~= Set::empty());
        assert(self@ =~= partly_polled(q, Set::empty(), flush_all_buckets));
        while i < channels.len()
            invariant
                i <= channels.len(),
                names == text::views(channels@),
                order::strictly_sorted(names),
                names.to_set() == q.dom(),
                pair_views(out@) == poll_output(q, names.take(i as int), flush_all_buckets),
                self@ == partly_polled(q, names.take(i as int).to_set(), flush_all_buckets),
            decreases channels.len() - i,
        {
            let channel = channels[i].as_str();
            let ghost now = self@;
            proof {
                assert(names[i as int] == channel@);
                assert forall|j: int| 0 <= j < names.len() && j != i implies #[trigger] names[j]
                    != channel@ by {
                    order::lex_irreflexive(channel@);
                }
                assert(q.dom().contains(channel@)) by {
                    assert(names.contains(names[i as int]));
                }
                assert(names.take(i + 1).drop_last() =~= names.take(i as int));
                assert(names.take(i + 1).last() == channel@);
                let done = names.take(i as int).to_set();
                assert(!done.contains(channel@)) by {
                    if done.contains(channel@) {
                        let j = names.take(i as int).index_of(channel@);
                        assert(names[j] == channel@);
                    }
                }
                text_set::lemma_take_insert(names, i as int);
            }
            let b = self.take(channel);
            let ghost before = b@;
            let ghost sent = pair_views(out@);
            let standard = drain_if_due(channel, b.standard, flush_all_buckets, &mut out);
            let cookie = drain_if_due(channel, b.cookie, flush_all_buckets, &mut out);
            let rest = Buckets { standard, cookie };
            let ghost after = rest@;
            proof {
                let want = held_buckets(q[channel@], flush_all_buckets);
                assert(after.standard == want.standard);
                assert(after.cookie == want.cookie);
                assert(after == want);
            }
            self.put(channel, rest);
            proof {
                let done = names.take(i as int).to_set();
                assert(self@ =~= partly_polled(q, done.insert(channel@), flush_all_buckets));
            }
            i = i + 1;
        }
        proof {
            assert(names.take(names.len() as int) =~= names);
            order::listing_is(names);
            assert(self@ =~= after_poll(q, flush_all_buckets));
        }
        out
    }
}

/// The keys of the queue are the listing of its channels.
proof fn lemma_names(q: QueueView, keys: Seq<String>)
    requires
        order::strictly_sorted(text::views(keys)),
        forall|k: Seq<char>| q.contains_key(k) <==> exists|i: int|
            0 <= i < keys.len() && #[trigger] keys[i]@ == k,
    ensures
        text::views(keys).to_set() == q.dom(),
{
    let names = text::views(keys);
    assert forall|k: Seq<char>| names.to_set().contains(k) <==> q.dom().contains(k) by {
        if q.contains_key(k) {
            let i = choose|i: int| 0 <= i < keys.len() && #[trigger] keys[i]@ == k;
            assert(names[i] == k);
        }
        if names.contains(k) {
            let i = names.index_of(k);
            assert(keys[i]@ == k);
        }
    }
    assert(names.to_set() =~= q.dom());
}

/// Whether a bucket is to be sent now.
fn bucket_is_due(changes: &Vec<ModeChange>, all: bool) -> (b: bool)
    ensures
        b == is_due(change_views(changes@), all),
{
    if all {
        return changes.len() > 0;
    }
    if changes.len() >= MAX_MODES_PER_LINE {
        return true;
    }
    let mut i: usize = 0;
    while i < changes.len()
        invariant
            i <= changes.len(),
            forall|j: int|
                0 <= j < i ==> (#[trigger] change_views(changes@)[j]).priority != Priority::Quick,
        decreases changes.len() - i,
    {
        if changes[i].priority == Priority::Quick {
            assert(change_views(changes@)[i as int].priority == Priority::Quick);
            return true;
        }
        i = i + 1;
    }
    false
}

/// Send a bucket if it is due; hand back what stays pending.
fn drain_if_due(
    channel: &str,
    changes: Vec<ModeChange>,
    all: bool,
    out: &mut Vec<(String, String)>,
) -> (rest: Vec<ModeChange>)
    ensures
        change_views(rest@) == held(change_views(changes@), all),
        pair_views(final(out)@) == pair_views(old(out)@) + for_channel(
            channel@,
            due_lines(channel@, change_views(changes@), all),
        ),
{
    let ghost start = pair_views(out@);
    if !bucket_is_due(&changes, all) {
        assert(start + for_channel(
            channel@,
            due_lines(channel@, change_views(changes@), all),
        ) =~= start);
        return changes;
    }
    let lines = serialize_lines(channel, &changes);
    let ghost ls = text::views(lines@);
    let mut i: usize = 0;
    assert(start + for_channel(channel@, ls.take(0)) =~= start);
    while i < lines.len()
        invariant
            i <= lines.len(),
            ls == text::views(lines@),
            pair_views(out@) == start + for_channel(channel@, ls.take(i as int)),
        decreases lines.len() - i,
    {
        let ghost before = pair_views(out@);
        out.push((text::owned(channel), lines[i].clone()));
        proof {
            assert(pair_views(out@) =~= before.push((channel@, ls[i as int])));
            assert(for_channel(channel@, ls.take(i + 1)) =~= for_channel(
                channel@,
                ls.take(i as int),
            ).push((channel@, ls[i as int])));
            assert(pair_views(out@) =~= start + for_channel(channel@, ls.take(i + 1)));
        }
        i = i + 1;
    }
    assert(ls.take(ls.len() as int) =~= ls);
    let rest: Vec<ModeChange> = Vec::new();
    assert(change_views(rest@) =~= Seq::empty());
    rest
}

// ----- laws ------------------------------------------------------------------

/// Ordering loses and invents nothing: every change comes out as often as it
/// went in.
pub proof fn ordering_keeps_every_change(changes: Seq<ChangeView>)
    ensures
        ordered(changes).to_multiset() == changes.to_multiset(),
        ordered(changes).len() == changes.len(),
    decreases changes.len(),
{
    broadcast use vstd::seq_lib::group_to_multiset_ensures;

    if changes.len() == 0 {
        assert(ordered(changes) =~= changes);
    } else {
        let c = changes.last();
        let rest = changes.drop_last();
        ordering_keeps_every_change(rest);
        assert(changes =~= rest.push(c));
        let removes = only(rest, Direction::Remove);
        let adds = only(rest, Direction::Add);
        vstd::seq_lib::lemma_multiset_commutative(removes, adds);
        if c.direction == Direction::Remove {
            vstd::seq_lib::lemma_multiset_commutative(removes.push(c), adds);
        } else {
            vstd::seq_lib::lemma_multiset_commutative(removes, adds.push(c));
        }
        assert(ordered(changes).to_multiset() =~= changes.to_multiset());
    }
}

proof fn lemma_only(changes: Seq<ChangeView>, d: Direction)
    ensures
        forall|i: int|
            0 <= i < only(changes, d).len() ==> (#[trigger] only(changes, d)[i]).direction == d,
    decreases changes.len(),
{
    if changes.len() > 0 {
        lemma_only(changes.drop_last(), d);
    }
}

/// No removal comes after an addition.
pub proof fn removals_come_first(changes: Seq<ChangeView>, i: int, j: int)
    requires
        0 <= i < j < ordered(changes).len(),
        ordered(changes)[i].direction == Direction::Add,
    ensures
        ordered(changes)[j].direction == Direction::Add,
{
    lemma_only(changes, Direction::Remove);
    lemma_only(changes, Direction::Add);
    let removes = only(changes, Direction::Remove);
    let adds = only(changes, Direction::Add);
    if i < removes.len() {
        assert(ordered(changes)[i] == removes[i]);
    } else {
        assert(ordered(changes)[j] == adds[j - removes.len()]);
    }
}

/// A flush sends as few lines as [`MAX_MODES_PER_LINE`] allows.
pub proof fn flush_line_count(channel: Seq<char>, changes: Seq<ChangeView>)
    ensures
        flushed(channel, changes).len() == (changes.len() + MAX_MODES_PER_LINE - 1)
            / MAX_MODES_PER_LINE as int,
{
    ordering_keeps_every_change(changes);
    lemma_line_count(channel, ordered(changes));
}

proof fn lemma_line_count(channel: Seq<char>, changes: Seq<ChangeView>)
    ensures
        mode_lines(channel, changes).len() == (changes.len() + MAX_MODES_PER_LINE - 1)
            / MAX_MODES_PER_LINE as int,
    decreases changes.len(),
{
    if changes.len() > MAX_MODES_PER_LINE {
        lemma_line_count(channel, changes.skip(MAX_MODES_PER_LINE as int));
    }
}

/// Every line of a flush is the line of at most [`MAX_MODES_PER_LINE`] changes
/// that stand next to each other in the ordered list.
pub proof fn lines_are_short(channel: Seq<char>, changes: Seq<ChangeView>, i: int)
    requires
        0 <= i < mode_lines(channel, changes).len(),
    ensures
        ({
            let from = i * MAX_MODES_PER_LINE;
            let to = if from + MAX_MODES_PER_LINE < changes.len() {
                from + MAX_MODES_PER_LINE
            } else {
                changes.len() as int
            };
            &&& 0 <= from < to <= changes.len()
            &&& mode_lines(channel, changes)[i] == mode_line(channel, changes.subrange(from, to))
        }),
    decreases changes.len(),
{
    if changes.len() > MAX_MODES_PER_LINE {
        if i > 0 {
            let rest = changes.skip(MAX_MODES_PER_LINE as int);
            lines_are_short(channel, rest, i - 1);
            let from = (i - 1) * MAX_MODES_PER_LINE;
            let to = if from + MAX_MODES_PER_LINE < rest.len() {
                from + MAX_MODES_PER_LINE
            } else {
                rest.len() as int
            };
            assert(rest.subrange(from, to) =~= changes.subrange(
                from + MAX_MODES_PER_LINE,
                to + MAX_MODES_PER_LINE,
            ));
        } else {
            assert(changes.subrange(0, MAX_MODES_PER_LINE as int) =~= changes.take(
                MAX_MODES_PER_LINE as int,
            ));
        }
    } else {
        assert(changes.subrange(0, changes.len() as int) =~= changes);
    }
}

/// A flush empties its bucket and touches no other.
pub proof fn flush_drains_one_bucket(
    q: QueueView,
    channel: Seq<char>,
    kind: QueueKind,
    other: Seq<char>,
    other_kind: QueueKind,
)
    ensures
        ({
            let after = with_buckets(
                q,
                channel,
                buckets_of(q, channel).with(kind, Seq::empty()),
            );
            &&& pending_in(after, channel, kind).len() == 0
            &&& (other != channel || other_kind != kind) ==> pending_in(after, other, other_kind)
                == pending_in(q, other, other_kind)
        }),
{
    let b = buckets_of(q, channel).with(kind, Seq::empty());
    if b.is_empty() {
        assert(b.standard =~= no_buckets().standard);
        assert(b.cookie =~= no_buckets().cookie);
    }
}

/// A periodic poll leaves nothing pending.
pub proof fn full_poll_leaves_nothing(q: QueueView)
    ensures
        after_poll(q, true) == Map::<Seq<char>, BucketsView>::empty(),
{
    assert(after_poll(q, true) =~= Map::<Seq<char>, BucketsView>::empty());
}

/// Queueing a `Quick` change makes its bucket due at the next poll of any kind.
pub proof fn quick_is_due(changes: Seq<ChangeView>, change: ChangeView, all: bool)
    requires
        change.priority == Priority::Quick,
    ensures
        is_due(changes.push(change), all),
{
    assert(changes.push(change)[changes.len() as int].priority == Priority::Quick);
}

} // verus!
