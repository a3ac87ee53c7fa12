//! Writing channels, their settings, and users' flags in them.

use crate::model::channel::{
    Channel, ChannelRecord, ChannelSettings, ChannelUserFlags, NewChannel, SettingsView,
    UserFlagsView,
};
use crate::model::flags::FlagSet;
use crate::model::ids;
use crate::model::ids::{ChannelId, UserId};
use crate::model::time;
use crate::model::time::now_ms;
use crate::text;
use vstd::prelude::*;

verus! {

/// The row that a write of the channel `name` stores: `existing` is the
/// identifier of the row with the same name, and when it was made.
pub open spec fn upserted(
    existing: Option<(ChannelId, i64)>,
    name: Seq<char>,
    fresh: ChannelId,
    now: i64,
    origin: Seq<char>,
) -> ChannelRecord {
    ChannelRecord {
        id: match existing {
            Some(e) => e.0,
            None => fresh,
        },
        name,
        created_at: match existing {
            Some(e) => e.1,
            None => now,
        },
        updated_at: now,
        origin_node: origin,
    }
}

/// The row that a write of a channel at `now` stores. A name that is new gets
/// the identifier `fresh`.
pub fn upsert_row(
    existing: Option<(ChannelId, i64)>,
    new_channel: &NewChannel,
    fresh: ChannelId,
    now: i64,
    origin_node: &str,
) -> (c: Channel)
    ensures
        c@ == upserted(existing, new_channel.name@, fresh, now, origin_node@),
{
    let (id, created_at) = match existing {
        Some((id, created_at)) => (id, created_at),
        None => (fresh, now),
    };
    Channel {
        id,
        name: new_channel.name.clone(),
        created_at,
        updated_at: now,
        origin_node: text::owned(origin_node),
    }
}

/// The row that a write of a channel stores now, under a fresh identifier if
/// its name is new.
pub fn upsert(existing: Option<(ChannelId, i64)>, new_channel: &NewChannel, origin_node: &str) -> (c:
    Channel)
    ensures
        exists|fresh: ChannelId, now: i64|
            ids::is_fresh(fresh.0) && time::is_reading(now) && c@ == #[trigger] upserted(
                existing,
                new_channel.name@,
                fresh,
                now,
                origin_node@,
            ),
{
    let now = now_ms();
    let fresh = ChannelId::new();
    upsert_row(existing, new_channel, fresh, now, origin_node)
}

/// Settings as they are written at `now`.
pub open spec fn stamped(s: SettingsView, now: i64, origin: Seq<char>) -> SettingsView {
    SettingsView { updated_at: now, origin_node: origin, ..s }
}

/// Settings as they are written at `now`.
pub fn stamp_settings(settings: &ChannelSettings, now: i64, origin_node: &str) -> (s:
    ChannelSettings)
    ensures
        s@ == stamped(settings@, now, origin_node@),
{
    let mut s = settings.copy();
    s.updated_at = now;
    s.origin_node = text::owned(origin_node);
    s
}

/// Settings as they are written now.
pub fn upsert_settings(settings: &ChannelSettings, origin_node: &str) -> (s: ChannelSettings)
    ensures
        exists|now: i64|
            time::is_reading(now) && s@ == #[trigger] stamped(settings@, now, origin_node@),
{
    let now = now_ms();
    stamp_settings(settings, now, origin_node)
}

/// A user's flags in a channel as they are written at `now`.
pub open spec fn stamped_flags(
    channel_id: ChannelId,
    user_id: UserId,
    flags: FlagSet,
    now: i64,
    origin: Seq<char>,
) -> UserFlagsView {
    UserFlagsView { channel_id, user_id, flags, updated_at: now, origin_node: origin }
}

/// A user's flags in a channel as they are written at `now`.
pub fn stamp_user_flags(
    channel_id: ChannelId,
    user_id: UserId,
    flags: FlagSet,
    now: i64,
    origin_node: &str,
) -> (f: ChannelUserFlags)
    ensures
        f@ == stamped_flags(channel_id, user_id, flags, now, origin_node@),
{
    ChannelUserFlags {
        channel_id,
        user_id,
        flags,
        updated_at: now,
        origin_node: text::owned(origin_node),
    }
}

/// A user's flags in a channel as they are written now.
pub fn upsert_user_flags(
    channel_id: ChannelId,
    user_id: UserId,
    flags: FlagSet,
    origin_node: &str,
) -> (f: ChannelUserFlags)
    ensures
        exists|now: i64|
            time::is_reading(now) && f@ == #[trigger] stamped_flags(
                channel_id,
                user_id,
                flags,
                now,
                origin_node@,
            ),
{
    let now = now_ms();
    stamp_user_flags(channel_id, user_id, flags, now, origin_node)
}

/// Writing a channel again keeps its identifier and when it was made.
pub proof fn rewriting_keeps_identity(
    name: Seq<char>,
    again: Seq<char>,
    fresh: ChannelId,
    other: ChannelId,
    first: i64,
    later: i64,
    origin: Seq<char>,
    origin2: Seq<char>,
)
    ensures
        ({
            let a = upserted(None, name, fresh, first, origin);
            let b = upserted(Some((a.id, a.created_at)), again, other, later, origin2);
            b == ChannelRecord { name: again, updated_at: later, origin_node: origin2, ..a }
        }),
{
}

} // verus!
