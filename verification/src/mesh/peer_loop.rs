//! What a node does with the messages of a connected peer.

use crate::model::channel::{Channel, ChannelSettings, ChannelUserFlags};
use crate::model::mask::Mask;
use crate::model::user::User;
use crate::proto::frame::Frame;
use crate::proto::sync::{
    ChunkView, Delete, RowView, SnapshotChunk, SnapshotEntry, SnapshotRequest, UpsertKind,
};
use crate::views;
use vstd::prelude::*;

verus! {

/// Rows in one page of a snapshot.
pub const SNAPSHOT_PAGE_SIZE: usize = 200;

/// What an inbound message asks for.
#[derive(Debug, Clone, PartialEq, Eq)]
pub enum PeerAction {
    /// Nothing; go on.
    Ignore,
    /// Close the connection.
    Close,
    /// Send the rows newer than `since_ts`.
    SendSnapshot { since_ts: i64 },
    /// Merge rows one by one; a row that fails is dropped.
    ApplyChunk(Vec<SnapshotEntry>),
    /// Merge a row.
    ApplyUpsert(UpsertKind),
    /// Merge a deletion.
    ApplyDelete(Delete),
}

/// The first message of the loop: ask for everything.
pub fn opening_request() -> (f: Frame)
    ensures
        f == Frame::SnapshotRequest(SnapshotRequest { since_ts: 0 }),
{
    Frame::SnapshotRequest(SnapshotRequest { since_ts: 0 })
}

/// What to do about an inbound message. A hello after the handshake is ignored.
pub fn handle_inbound(frame: Frame) -> (a: PeerAction)
    ensures
        a == match frame {
            Frame::Hello(_) => PeerAction::Ignore,
            Frame::Goodbye(_) => PeerAction::Close,
            Frame::SnapshotRequest(r) => PeerAction::SendSnapshot { since_ts: r.since_ts },
            Frame::SnapshotChunk(c) => PeerAction::ApplyChunk(c.entries),
            Frame::Upsert(u) => PeerAction::ApplyUpsert(u.kind),
            Frame::Delete(d) => PeerAction::ApplyDelete(d),
        },
{
    match frame {
        Frame::Hello(_) => PeerAction::Ignore,
        Frame::Goodbye(_) => PeerAction::Close,
        Frame::SnapshotRequest(r) => PeerAction::SendSnapshot { since_ts: r.since_ts },
        Frame::SnapshotChunk(c) => PeerAction::ApplyChunk(c.entries),
        Frame::Upsert(u) => PeerAction::ApplyUpsert(u.kind),
        Frame::Delete(d) => PeerAction::ApplyDelete(d),
    }
}

// ----- snapshots ----------------------------------------------------------------

/// The rows of a snapshot, tagged.
pub open spec fn user_rows(l: Seq<User>) -> Seq<RowView> {
    Seq::new(l.len(), |i: int| RowView::User(l[i]@))
}

pub open spec fn channel_rows(l: Seq<Channel>) -> Seq<RowView> {
    Seq::new(l.len(), |i: int| RowView::Channel(l[i]@))
}

pub open spec fn settings_rows(l: Seq<ChannelSettings>) -> Seq<RowView> {
    Seq::new(l.len(), |i: int| RowView::ChannelSettings(l[i]@))
}

pub open spec fn flag_rows(l: Seq<ChannelUserFlags>) -> Seq<RowView> {
    Seq::new(l.len(), |i: int| RowView::ChannelUserFlags(l[i]@))
}

pub open spec fn mask_rows(l: Seq<Mask>) -> Seq<RowView> {
    Seq::new(l.len(), |i: int| RowView::Mask(l[i]@))
}

/// The rows of a snapshot in the order in which they are sent: users first, as
/// other rows refer to them, then channels, their settings, users' flags in
/// them, and masks.
pub fn snapshot_entries(
    users: &Vec<User>,
    channels: &Vec<Channel>,
    settings: &Vec<ChannelSettings>,
    flags: &Vec<ChannelUserFlags>,
    masks: &Vec<Mask>,
) -> (v: Vec<SnapshotEntry>)
    ensures
        views::list(v@) == user_rows(users@) + channel_rows(channels@) + settings_rows(settings@)
            + flag_rows(flags@) + mask_rows(masks@),
{
    let mut v: Vec<SnapshotEntry> = Vec::new();
    let mut i: usize = 0;
    while i < users.len()
        invariant
            i <= users.len(),
            views::list(v@) =~= user_rows(users@).take(i as int),
        decreases users.len() - i,
    {
        let e = SnapshotEntry::User(users[i].copy());
        proof {
            views::list_push(v@, e);
        }
        v.push(e);
        i = i + 1;
    }
    let ghost a = user_rows(users@);
    assert(a.take(a.len() as int) =~= a);
    let mut i: usize = 0;
    while i < channels.len()
        invariant
            i <= channels.len(),
            views::list(v@) =~= a + channel_rows(channels@).take(i as int),
        decreases channels.len() - i,
    {
        let e = SnapshotEntry::Channel(channels[i].copy());
        proof {
            views::list_push(v@, e);
        }
        v.push(e);
        i = i + 1;
    }
    let ghost b = a + channel_rows(channels@);
    assert(channel_rows(channels@).take(channels@.len() as int) =~= channel_rows(channels@));
    let mut i: usize = 0;
    while i < settings.len()
        invariant
            i <= settings.len(),
            views::list(v@) =~= b + settings_rows(settings@).take(i as int),
        decreases settings.len() - i,
    {
        let e = SnapshotEntry::ChannelSettings(settings[i].copy());
        proof {
            views::list_push(v@, e);
        }
        v.push(e);
        i = i + 1;
    }
    let ghost c = b + settings_rows(settings@);
    assert(settings_rows(settings@).take(settings@.len() as int) =~= settings_rows(settings@));
    let mut i: usize = 0;
    while i < flags.len()
        invariant
            i <= flags.len(),
            views::list(v@) =~= c + flag_rows(flags@).take(i as int),
        decreases flags.len() - i,
    {
        let e = SnapshotEntry::ChannelUserFlags(flags[i].copy());
        proof {
            views::list_push(v@, e);
        }
        v.push(e);
        i = i + 1;
    }
    let ghost d = c + flag_rows(flags@);
    assert(flag_rows(flags@).take(flags@.len() as int) =~= flag_rows(flags@));
    let mut i: usize = 0;
    while i < masks.len()
        invariant
            i <= masks.len(),
            views::list(v@) =~= d + mask_rows(masks@).take(i as int),
        decreases masks.len() - i,
    {
        let e = SnapshotEntry::Mask(masks[i].copy());
        proof {
            views::list_push(v@, e);
        }
        v.push(e);
        i = i + 1;
    }
    assert(mask_rows(masks@).take(masks@.len() as int) =~= mask_rows(masks@));
    v
}

/// The pages of a snapshot: full ones while more rows remain, then the rest.
/// No rows make one empty page.
pub open spec fn pages(rows: Seq<RowView>) -> Seq<ChunkView>
    decreases rows.len(),
{
    if rows.len() <= SNAPSHOT_PAGE_SIZE {
        seq![ChunkView { entries: rows, more: false }]
    } else {
        seq![ChunkView { entries: rows.take(SNAPSHOT_PAGE_SIZE as int), more: true }] + pages(
            rows.skip(SNAPSHOT_PAGE_SIZE as int),
        )
    }
}

fn copy_entry(e: &SnapshotEntry) -> (c: SnapshotEntry)
    ensures
        c@ == e@,
{
    match e {
        SnapshotEntry::User(u) => SnapshotEntry::User(u.copy()),
        SnapshotEntry::Channel(c) => SnapshotEntry::Channel(c.copy()),
        SnapshotEntry::ChannelSettings(s) => SnapshotEntry::ChannelSettings(s.copy()),
        SnapshotEntry::ChannelUserFlags(f) => SnapshotEntry::ChannelUserFlags(f.copy()),
        SnapshotEntry::Mask(m) => SnapshotEntry::Mask(m.copy()),
    }
}

/// The pages of a snapshot.
pub fn snapshot_chunks(entries: &Vec<SnapshotEntry>) -> (r: Vec<SnapshotChunk>)
    ensures
        views::list(r@) == pages(views::list(entries@)),
{
    let ghost rows = views::list(entries@);
    let n = entries.len();
    let mut r: Vec<SnapshotChunk> = Vec::new();
    let mut from: usize = 0;
    assert(rows.skip(0) =~= rows);
    assert(views::list(r@) =~= Seq::empty());
    assert(views::list(r@) + pages(rows.skip(0)) =~= pages(rows));
    loop
        invariant_except_break
            from <= n,
            n == entries@.len(),
            rows == views::list(entries@),
            views::list(r@) + pages(rows.skip(from as int)) == pages(rows),
        ensures
            views::list(r@) == pages(rows),
        decreases n - from,
    {
        let more = n - from > SNAPSHOT_PAGE_SIZE;
        let to: usize = if more { from + SNAPSHOT_PAGE_SIZE } else { n };
        let mut page: Vec<SnapshotEntry> = Vec::new();
        let mut i: usize = from;
        while i < to
            invariant
                from <= i <= to <= n,
                n == entries@.len(),
                rows == views::list(entries@),
                views::list(page@) =~= rows.subrange(from as int, i as int),
            decreases to - i,
        {
            let e = copy_entry(&entries[i]);
            proof {
                views::list_push(page@, e);
            }
            page.push(e);
            i = i + 1;
        }
        let ghost before = r@;
        let ghost rest = rows.skip(from as int);
        let chunk = SnapshotChunk { entries: page, more };
        proof {
            assert(rest.take(to - from) =~= rows.subrange(from as int, to as int));
            assert(rest.take(rest.len() as int) =~= rest);
            if more {
                assert(rest.skip(SNAPSHOT_PAGE_SIZE as int) =~= rows.skip(to as int));
            }
        }
        r.push(chunk);
        proof {
            assert(views::list(r@) =~= views::list(before).push(chunk@));
            if more {
                assert(views::list(r@) + pages(rows.skip(to as int)) =~= views::list(before) + (
                seq![chunk@] + pages(rows.skip(to as int))));
            } else {
                assert(views::list(r@) =~= views::list(before) + seq![chunk@]);
            }
        }
        if !more {
            break;
        }
        from = to;
    }
    r
}

// ----- laws ------------------------------------------------------------------

/// All rows of a list of pages.
pub open spec fn rows_of(ps: Seq<ChunkView>) -> Seq<RowView>
    decreases ps.len(),
{
    if ps.len() == 0 {
        Seq::empty()
    } else {
        ps[0].entries + rows_of(ps.drop_first())
    }
}

/// A snapshot arrives whole and in order: its pages hold exactly the rows.
pub proof fn pages_hold_every_row(rows: Seq<RowView>)
    ensures
        rows_of(pages(rows)) == rows,
    decreases rows.len(),
{
    let ps = pages(rows);
    if rows.len() <= SNAPSHOT_PAGE_SIZE {
        assert(ps.drop_first() =~= Seq::empty());
        assert(ps[0].entries + rows_of(ps.drop_first()) =~= rows);
    } else {
        let rest = rows.skip(SNAPSHOT_PAGE_SIZE as int);
        pages_hold_every_row(rest);
        assert(ps.drop_first() =~= pages(rest));
        assert(rows.take(SNAPSHOT_PAGE_SIZE as int) + rest =~= rows);
    }
}

/// There is at least one page, none is larger than the page size, and exactly
/// the last one says that nothing follows.
pub proof fn last_page_ends_the_snapshot(rows: Seq<RowView>)
    ensures
        pages(rows).len() > 0,
        forall|i: int|
            0 <= i < pages(rows).len() ==> (#[trigger] pages(rows)[i]).entries.len()
                <= SNAPSHOT_PAGE_SIZE,
        forall|i: int|
            0 <= i < pages(rows).len() ==> (#[trigger] pages(rows)[i]).more == (i + 1 < pages(
                rows,
            ).len()),
    decreases rows.len(),
{
    if rows.len() > SNAPSHOT_PAGE_SIZE {
        let rest = rows.skip(SNAPSHOT_PAGE_SIZE as int);
        last_page_ends_the_snapshot(rest);
        let ps = pages(rows);
        assert forall|i: int| 0 <= i < ps.len() implies (#[trigger] ps[i]).entries.len()
            <= SNAPSHOT_PAGE_SIZE && ps[i].more == (i + 1 < ps.len()) by {
            if i > 0 {
                assert(ps[i] == pages(rest)[i - 1]);
            }
        }
    }
}

} // verus!
