//! Snapshot and gossip messages.
//!
//! On connecting, a node asks for the rows newer than what it has seen; the
//! peer answers with one or more [`SnapshotChunk`]s. Later changes are broadcast
//! as [`Upsert`] and [`Delete`].

use crate::model::channel::{
    Channel, ChannelRecord, ChannelSettings, ChannelUserFlags, SettingsView, UserFlagsView,
};
use crate::model::ids::{ChannelId, MaskId, UserId};
use crate::model::mask::{Mask, MaskView};
use crate::model::user::{User, UserView};
use crate::views;
use vstd::prelude::*;

verus! {

/// "Catch me up on rows newer than `since_ts`"; zero asks for everything.
#[derive(Debug, Clone, Copy, PartialEq, Eq, Structural)]
pub struct SnapshotRequest {
    pub since_ts: i64,
}

/// One row of a snapshot.
#[derive(Debug, Clone, PartialEq, Eq)]
pub enum SnapshotEntry {
    User(User),
    Channel(Channel),
    ChannelSettings(ChannelSettings),
    ChannelUserFlags(ChannelUserFlags),
    Mask(Mask),
}

/// What a replicated row says.
pub enum RowView {
    User(UserView),
    Channel(ChannelRecord),
    ChannelSettings(SettingsView),
    ChannelUserFlags(UserFlagsView),
    Mask(MaskView),
}

impl View for SnapshotEntry {
    type V = RowView;

    open spec fn view(&self) -> RowView {
        match *self {
            SnapshotEntry::User(u) => RowView::User(u@),
            SnapshotEntry::Channel(c) => RowView::Channel(c@),
            SnapshotEntry::ChannelSettings(s) => RowView::ChannelSettings(s@),
            SnapshotEntry::ChannelUserFlags(f) => RowView::ChannelUserFlags(f@),
            SnapshotEntry::Mask(m) => RowView::Mask(m@),
        }
    }
}

/// One page of a snapshot. The last page has `more == false` and may be empty.
#[derive(Debug, Clone, PartialEq, Eq)]
pub struct SnapshotChunk {
    pub entries: Vec<SnapshotEntry>,
    /// Whether another page follows.
    pub more: bool,
}

/// What a [`SnapshotChunk`] says.
pub struct ChunkView {
    pub entries: Seq<RowView>,
    pub more: bool,
}

impl View for SnapshotChunk {
    type V = ChunkView;

    open spec fn view(&self) -> ChunkView {
        ChunkView { entries: views::list(self.entries@), more: self.more }
    }
}

/// The row that changed. It carries its own stamp.
#[derive(Debug, Clone, PartialEq, Eq)]
pub enum UpsertKind {
    User(User),
    Channel(Channel),
    ChannelSettings(ChannelSettings),
    ChannelUserFlags(ChannelUserFlags),
    Mask(Mask),
}

impl View for UpsertKind {
    type V = RowView;

    open spec fn view(&self) -> RowView {
        match *self {
            UpsertKind::User(u) => RowView::User(u@),
            UpsertKind::Channel(c) => RowView::Channel(c@),
            UpsertKind::ChannelSettings(s) => RowView::ChannelSettings(s@),
            UpsertKind::ChannelUserFlags(f) => RowView::ChannelUserFlags(f@),
            UpsertKind::Mask(m) => RowView::Mask(m@),
        }
    }
}

/// A row that changed, as broadcast.
#[derive(Debug, Clone, PartialEq, Eq)]
pub struct Upsert {
    pub kind: UpsertKind,
}

/// What was deleted.
#[derive(Debug, Clone, Copy, PartialEq, Eq, Structural)]
pub enum DeleteKind {
    User { id: UserId },
    Channel { id: ChannelId },
    ChannelUserFlags { channel_id: ChannelId, user_id: UserId },
    Mask { id: MaskId },
}

/// A deletion, as broadcast, with its stamp.
#[derive(Debug, Clone, PartialEq, Eq)]
pub struct Delete {
    pub kind: DeleteKind,
    pub updated_at: i64,
    pub origin_node: String,
}

} // verus!
