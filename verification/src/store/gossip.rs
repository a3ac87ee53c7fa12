//! Merging rows that other nodes wrote, under last-write-wins.
//!
//! Each function compares the incoming row with the local one by
//! `(updated_at, origin_node)` and says what is to be stored. Masks are gated
//! by tombstones as well, so that a delete survives reordering. The stamp of
//! the incoming row is kept as it came: it was made by the node that wrote the
//! row first.

use crate::model::channel::{
    Channel, ChannelRecord, ChannelSettings, ChannelUserFlags, SettingsView, UserFlagsView,
};
use crate::model::mask::{Mask, MaskView};
use crate::model::user::{User, UserView};
use crate::order;
use crate::order::{place, Placement};
use crate::text;
use crate::views;
use vstd::prelude::*;

verus! {

/// When a row was written, and by which node.
pub struct Stamp {
    pub at: i64,
    pub origin: Seq<char>,
}

/// Whether a write stamped `a` replaces one stamped `b`: it is later, or as
/// late and from the node whose name comes first.
pub open spec fn beats(a: Stamp, b: Stamp) -> bool {
    a.at > b.at || (a.at == b.at && order::lex_lt(a.origin, b.origin))
}

/// Whether a write at `at` by `origin` replaces one at `than_at` by
/// `than_origin`.
pub fn wins(at: i64, origin: &str, than_at: i64, than_origin: &str) -> (b: bool)
    ensures
        b == beats(Stamp { at, origin: origin@ }, Stamp { at: than_at, origin: than_origin@ }),
{
    if at != than_at {
        return at > than_at;
    }
    match place(origin, than_origin) {
        Placement::Before => true,
        Placement::Same => {
            proof {
                order::lex_irreflexive(origin@);
            }
            false
        },
        Placement::After => {
            proof {
                order::lex_asymmetric(than_origin@, origin@);
            }
            false
        },
    }
}

// ----- stamps of rows ----------------------------------------------------------

pub open spec fn user_stamp(u: UserView) -> Stamp {
    Stamp { at: u.updated_at, origin: u.origin_node }
}

pub open spec fn channel_stamp(c: ChannelRecord) -> Stamp {
    Stamp { at: c.updated_at, origin: c.origin_node }
}

pub open spec fn settings_stamp(s: SettingsView) -> Stamp {
    Stamp { at: s.updated_at, origin: s.origin_node }
}

pub open spec fn flags_stamp(f: UserFlagsView) -> Stamp {
    Stamp { at: f.updated_at, origin: f.origin_node }
}

pub open spec fn mask_stamp(m: MaskView) -> Stamp {
    Stamp { at: m.updated_at, origin: m.origin_node }
}

// ----- users --------------------------------------------------------------------

/// What is stored when the row `remote` arrives: `None` when the local row
/// stands. A local row keeps when it was made and when the user was last seen.
pub open spec fn user_upserted(local: Option<UserView>, remote: UserView) -> Option<UserView> {
    match local {
        None => Some(UserView { last_seen_at: None, ..remote }),
        Some(l) => if beats(user_stamp(remote), user_stamp(l)) {
            Some(UserView { created_at: l.created_at, last_seen_at: l.last_seen_at, ..remote })
        } else {
            None
        },
    }
}

/// Apply a remote user row: the row to store, or `None` if our copy wins.
pub fn apply_user_upsert(local: Option<&User>, user: &User) -> (r: Option<User>)
    ensures
        views::optional(r) == user_upserted(views::borrowed(local), user@),
{
    match local {
        None => {
            let mut u = user.copy();
            u.last_seen_at = None;
            Some(u)
        },
        Some(l) => {
            if wins(
                user.updated_at,
                user.origin_node.as_str(),
                l.updated_at,
                l.origin_node.as_str(),
            ) {
                let mut u = user.copy();
                u.created_at = l.created_at;
                u.last_seen_at = l.last_seen_at;
                Some(u)
            } else {
                None
            }
        },
    }
}

/// Whether a remote delete stamped `(updated_at, origin_node)` removes the
/// local user row.
pub fn apply_user_delete(local: Option<&User>, updated_at: i64, origin_node: &str) -> (b: bool)
    ensures
        b == (local matches Some(l) && beats(
            Stamp { at: updated_at, origin: origin_node@ },
            user_stamp(l@),
        )),
{
    match local {
        None => false,
        Some(l) => wins(updated_at, origin_node, l.updated_at, l.origin_node.as_str()),
    }
}

// ----- channels -----------------------------------------------------------------

/// What is stored when the row `remote` arrives. A local row keeps when it was
/// made.
pub open spec fn channel_upserted(
    local: Option<ChannelRecord>,
    remote: ChannelRecord,
) -> Option<ChannelRecord> {
    match local {
        None => Some(remote),
        Some(l) => if beats(channel_stamp(remote), channel_stamp(l)) {
            Some(ChannelRecord { created_at: l.created_at, ..remote })
        } else {
            None
        },
    }
}

/// Apply a remote channel row: the row to store, or `None` if our copy wins.
pub fn apply_channel_upsert(local: Option<&Channel>, channel: &Channel) -> (r: Option<Channel>)
    ensures
        views::optional(r) == channel_upserted(views::borrowed(local), channel@),
{
    match local {
        None => Some(channel.copy()),
        Some(l) => {
            if wins(
                channel.updated_at,
                channel.origin_node.as_str(),
                l.updated_at,
                l.origin_node.as_str(),
            ) {
                let mut c = channel.copy();
                c.created_at = l.created_at;
                Some(c)
            } else {
                None
            }
        },
    }
}

/// Whether a remote delete removes the local channel row.
pub fn apply_channel_delete(local: Option<&Channel>, updated_at: i64, origin_node: &str) -> (b:
    bool)
    ensures
        b == (local matches Some(l) && beats(
            Stamp { at: updated_at, origin: origin_node@ },
            channel_stamp(l@),
        )),
{
    match local {
        None => false,
        Some(l) => wins(updated_at, origin_node, l.updated_at, l.origin_node.as_str()),
    }
}

// ----- channel settings ---------------------------------------------------------

/// What is stored when the row `remote` arrives.
pub open spec fn settings_upserted(
    local: Option<SettingsView>,
    remote: SettingsView,
) -> Option<SettingsView> {
    match local {
        None => Some(remote),
        Some(l) => if beats(settings_stamp(remote), settings_stamp(l)) {
            Some(remote)
        } else {
            None
        },
    }
}

/// Apply remote channel settings: the row to store, or `None` if our copy wins.
pub fn apply_channel_settings_upsert(
    local: Option<&ChannelSettings>,
    settings: &ChannelSettings,
) -> (r: Option<ChannelSettings>)
    ensures
        views::optional(r) == settings_upserted(views::borrowed(local), settings@),
{
    match local {
        None => Some(settings.copy()),
        Some(l) => {
            if wins(
                settings.updated_at,
                settings.origin_node.as_str(),
                l.updated_at,
                l.origin_node.as_str(),
            ) {
                Some(settings.copy())
            } else {
                None
            }
        },
    }
}

// ----- channel user flags -------------------------------------------------------

/// What is stored when the row `remote` arrives.
pub open spec fn flags_upserted(
    local: Option<UserFlagsView>,
    remote: UserFlagsView,
) -> Option<UserFlagsView> {
    match local {
        None => Some(remote),
        Some(l) => if beats(flags_stamp(remote), flags_stamp(l)) {
            Some(remote)
        } else {
            None
        },
    }
}

/// Apply a remote `(channel, user)` flag row: the row to store, or `None` if
/// our copy wins.
pub fn apply_channel_user_flags_upsert(
    local: Option<&ChannelUserFlags>,
    row: &ChannelUserFlags,
) -> (r: Option<ChannelUserFlags>)
    ensures
        views::optional(r) == flags_upserted(views::borrowed(local), row@),
{
    match local {
        None => Some(row.copy()),
        Some(l) => {
            if wins(
                row.updated_at,
                row.origin_node.as_str(),
                l.updated_at,
                l.origin_node.as_str(),
            ) {
                Some(row.copy())
            } else {
                None
            }
        },
    }
}

/// Whether a remote delete removes the local `(channel, user)` flag row.
pub fn apply_channel_user_flags_delete(
    local: Option<&ChannelUserFlags>,
    updated_at: i64,
    origin_node: &str,
) -> (b: bool)
    ensures
        b == (local matches Some(l) && beats(
            Stamp { at: updated_at, origin: origin_node@ },
            flags_stamp(l@),
        )),
{
    match local {
        None => false,
        Some(l) => wins(updated_at, origin_node, l.updated_at, l.origin_node.as_str()),
    }
}

// ----- masks --------------------------------------------------------------------

/// The trace that a deleted mask leaves.
#[derive(Debug, Clone, PartialEq, Eq)]
pub struct Tombstone {
    pub deleted_at: i64,
    pub origin_node: String,
}

impl View for Tombstone {
    type V = Stamp;

    open spec fn view(&self) -> Stamp {
        Stamp { at: self.deleted_at, origin: self.origin_node@ }
    }
}

/// What a store holds under one mask id.
pub struct MaskState {
    pub row: Option<MaskView>,
    pub tombstone: Option<Stamp>,
}

/// Whether a tombstone keeps out a mask: it is later, or as late and from the
/// same node or one whose name comes first.
pub open spec fn buries(t: Stamp, m: Stamp) -> bool {
    t.at > m.at || (t.at == m.at && !order::lex_lt(m.origin, t.origin))
}

/// What is stored when the mask `remote` arrives: `None` when nothing changes.
pub open spec fn mask_upserted(s: MaskState, remote: MaskView) -> Option<MaskView> {
    if s.tombstone matches Some(t) && buries(t, mask_stamp(remote)) {
        None
    } else {
        match s.row {
            None => Some(remote),
            Some(l) => if beats(mask_stamp(remote), mask_stamp(l)) {
                Some(remote)
            } else {
                None
            },
        }
    }
}

/// Apply a remote mask: the row to store, or `None` if our copy, or the trace
/// of a delete, wins.
pub fn apply_mask_upsert(local: Option<&Mask>, tombstone: Option<&Tombstone>, mask: &Mask) -> (r:
    Option<Mask>)
    ensures
        views::optional(r) == mask_upserted(
            MaskState { row: views::borrowed(local), tombstone: views::borrowed(tombstone) },
            mask@,
        ),
{
    if let Some(t) = tombstone {
        let later = t.deleted_at > mask.updated_at;
        let as_late = t.deleted_at == mask.updated_at;
        let newer_mask = match place(mask.origin_node.as_str(), t.origin_node.as_str()) {
            Placement::Before => true,
            Placement::Same => {
                proof {
                    order::lex_irreflexive(t.origin_node@);
                }
                false
            },
            Placement::After => {
                proof {
                    order::lex_asymmetric(t.origin_node@, mask.origin_node@);
                }
                false
            },
        };
        if later || (as_late && !newer_mask) {
            return None;
        }
    }
    match local {
        None => Some(mask.copy()),
        Some(l) => {
            if wins(
                mask.updated_at,
                mask.origin_node.as_str(),
                l.updated_at,
                l.origin_node.as_str(),
            ) {
                Some(mask.copy())
            } else {
                None
            }
        },
    }
}

/// What a remote delete of a mask does.
#[derive(Debug, Clone, PartialEq, Eq)]
pub struct MaskDeletion {
    /// The local row goes.
    pub removes_row: bool,
    /// The tombstone to write, unless a newer one is there.
    pub tombstone: Option<Tombstone>,
}

impl MaskDeletion {
    /// Whether the store changes.
    pub fn changes(&self) -> (b: bool)
        ensures
            b == (self.removes_row || self.tombstone is Some),
    {
        self.removes_row || self.tombstone.is_some()
    }
}

/// Whether a delete stamped `d` removes the row.
pub open spec fn removes_row(s: MaskState, d: Stamp) -> bool {
    s.row matches Some(l) && beats(d, mask_stamp(l))
}

/// Whether a delete stamped `d` leaves its tombstone.
pub open spec fn leaves_tombstone(s: MaskState, d: Stamp) -> bool {
    s.tombstone matches Some(t) ==> beats(d, t)
}

/// Apply a remote delete of a mask. The row goes if it is older; the tombstone
/// is recorded, or refreshed, so that a stale upsert that comes later loses.
pub fn apply_mask_delete(
    local: Option<&Mask>,
    tombstone: Option<&Tombstone>,
    updated_at: i64,
    origin_node: &str,
) -> (r: MaskDeletion)
    ensures
        ({
            let s = MaskState {
                row: views::borrowed(local),
                tombstone: views::borrowed(tombstone),
            };
            let d = Stamp { at: updated_at, origin: origin_node@ };
            &&& r.removes_row == removes_row(s, d)
            &&& views::optional(r.tombstone) == if leaves_tombstone(s, d) {
                Some(d)
            } else {
                None
            }
        }),
{
    let removes_row = match local {
        None => false,
        Some(l) => wins(updated_at, origin_node, l.updated_at, l.origin_node.as_str()),
    };
    let leaves = match tombstone {
        None => true,
        Some(t) => wins(updated_at, origin_node, t.deleted_at, t.origin_node.as_str()),
    };
    let left = if leaves {
        Some(Tombstone { deleted_at: updated_at, origin_node: text::owned(origin_node) })
    } else {
        None
    };
    MaskDeletion { removes_row, tombstone: left }
}

} // verus!
