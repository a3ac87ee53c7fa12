//! Channel records.
//!
//! A [`Channel`] is the identity of an IRC channel; what Shade manages about it
//! lives in [`ChannelSettings`], so that a settings update leaves the identity
//! row alone.

use crate::model::flags::FlagSet;
use crate::model::ids::{ChannelId, UserId};
use crate::text;
use vstd::prelude::*;

verus! {

/// Persisted channel record.
#[derive(Debug, Clone, PartialEq, Eq)]
pub struct Channel {
    pub id: ChannelId,
    /// IRC channel name with its `#` or `&`. Names are compared without case.
    pub name: String,
    pub created_at: i64,
    pub updated_at: i64,
    pub origin_node: String,
}

/// What a [`Channel`] says.
pub struct ChannelRecord {
    pub id: ChannelId,
    pub name: Seq<char>,
    pub created_at: i64,
    pub updated_at: i64,
    pub origin_node: Seq<char>,
}

impl View for Channel {
    type V = ChannelRecord;

    open spec fn view(&self) -> ChannelRecord {
        ChannelRecord {
            id: self.id,
            name: self.name@,
            created_at: self.created_at,
            updated_at: self.updated_at,
            origin_node: self.origin_node@,
        }
    }
}

impl Channel {
    /// A copy of the record.
    pub fn copy(&self) -> (c: Self)
        ensures
            c@ == self@,
    {
        Channel {
            id: self.id,
            name: self.name.clone(),
            created_at: self.created_at,
            updated_at: self.updated_at,
            origin_node: self.origin_node.clone(),
        }
    }
}

/// Per-channel settings managed by Shade.
#[derive(Debug, Clone, PartialEq, Eq)]
pub struct ChannelSettings {
    pub channel_id: ChannelId,
    /// Channel-level flags.
    pub flags: FlagSet,
    /// Modes to enforce by setting them.
    pub mode_pls: String,
    /// Modes to enforce by removing them.
    pub mode_mns: String,
    /// Enforced channel limit, or `None` for "don't manage".
    pub limit_prot: Option<i32>,
    /// Enforced channel key, or `None`.
    pub key_prot: Option<String>,
    /// Topic to restore if it goes missing.
    pub topic_saved: Option<String>,
    pub updated_at: i64,
    pub origin_node: String,
}

/// What [`ChannelSettings`] say.
pub struct SettingsView {
    pub channel_id: ChannelId,
    pub flags: FlagSet,
    pub mode_pls: Seq<char>,
    pub mode_mns: Seq<char>,
    pub limit_prot: Option<i32>,
    pub key_prot: Option<Seq<char>>,
    pub topic_saved: Option<Seq<char>>,
    pub updated_at: i64,
    pub origin_node: Seq<char>,
}

impl View for ChannelSettings {
    type V = SettingsView;

    open spec fn view(&self) -> SettingsView {
        SettingsView {
            channel_id: self.channel_id,
            flags: self.flags,
            mode_pls: self.mode_pls@,
            mode_mns: self.mode_mns@,
            limit_prot: self.limit_prot,
            key_prot: text::opt_view(self.key_prot),
            topic_saved: text::opt_view(self.topic_saved),
            updated_at: self.updated_at,
            origin_node: self.origin_node@,
        }
    }
}

impl ChannelSettings {
    /// A copy of the record.
    pub fn copy(&self) -> (c: Self)
        ensures
            c@ == self@,
    {
        ChannelSettings {
            channel_id: self.channel_id,
            flags: self.flags,
            mode_pls: self.mode_pls.clone(),
            mode_mns: self.mode_mns.clone(),
            limit_prot: self.limit_prot,
            key_prot: text::opt_clone(&self.key_prot),
            topic_saved: text::opt_clone(&self.topic_saved),
            updated_at: self.updated_at,
            origin_node: self.origin_node.clone(),
        }
    }
}

/// A user's flag set in one channel.
#[derive(Debug, Clone, PartialEq, Eq)]
pub struct ChannelUserFlags {
    pub channel_id: ChannelId,
    pub user_id: UserId,
    pub flags: FlagSet,
    pub updated_at: i64,
    pub origin_node: String,
}

/// What a [`ChannelUserFlags`] row says.
pub struct UserFlagsView {
    pub channel_id: ChannelId,
    pub user_id: UserId,
    pub flags: FlagSet,
    pub updated_at: i64,
    pub origin_node: Seq<char>,
}

impl View for ChannelUserFlags {
    type V = UserFlagsView;

    open spec fn view(&self) -> UserFlagsView {
        UserFlagsView {
            channel_id: self.channel_id,
            user_id: self.user_id,
            flags: self.flags,
            updated_at: self.updated_at,
            origin_node: self.origin_node@,
        }
    }
}

impl ChannelUserFlags {
    /// A copy of the record.
    pub fn copy(&self) -> (c: Self)
        ensures
            c@ == self@,
    {
        ChannelUserFlags {
            channel_id: self.channel_id,
            user_id: self.user_id,
            flags: self.flags,
            updated_at: self.updated_at,
            origin_node: self.origin_node.clone(),
        }
    }
}

/// Inputs to create a new channel; the rest is filled in on writing.
#[derive(Debug, Clone, PartialEq, Eq)]
pub struct NewChannel {
    pub name: String,
}

} // verus!
