//! Hostmask records: bans, exempts, invites.

use crate::model::ids::{ChannelId, MaskId};
use crate::text;
use vstd::prelude::*;

verus! {

/// The three lists that masks stand on.
#[derive(Debug, Clone, Copy, PartialEq, Eq, Structural)]
pub enum MaskKind {
    /// `+b` ban: the auto-kick list.
    Ban,
    /// `+e` exempt: overrides matching bans.
    Exempt,
    /// `+I` invite: bypasses `+i` on channels.
    Invite,
}

/// The storage number of a kind.
pub open spec fn kind_number(k: MaskKind) -> i64 {
    match k {
        MaskKind::Ban => 1,
        MaskKind::Exempt => 2,
        MaskKind::Invite => 3,
    }
}

/// The name of a kind.
pub open spec fn kind_name(k: MaskKind) -> Seq<char> {
    match k {
        MaskKind::Ban => "ban"@,
        MaskKind::Exempt => "exempt"@,
        MaskKind::Invite => "invite"@,
    }
}

impl MaskKind {
    /// Storage number.
    #[must_use]
    pub fn as_i64(self) -> (n: i64)
        ensures
            n == kind_number(self),
    {
        match self {
            MaskKind::Ban => 1,
            MaskKind::Exempt => 2,
            MaskKind::Invite => 3,
        }
    }

    /// The kind with a storage number; `None` for unknown numbers.
    #[must_use]
    pub fn from_i64(v: i64) -> (r: Option<Self>)
        ensures
            r is Some == (1 <= v <= 3),
            r matches Some(k) ==> kind_number(k) == v,
    {
        if v == 1 {
            Some(MaskKind::Ban)
        } else if v == 2 {
            Some(MaskKind::Exempt)
        } else if v == 3 {
            Some(MaskKind::Invite)
        } else {
            None
        }
    }

    /// The kind's name, in lower case.
    pub fn name(self) -> (s: &'static str)
        ensures
            s@ == kind_name(self),
    {
        match self {
            MaskKind::Ban => "ban",
            MaskKind::Exempt => "exempt",
            MaskKind::Invite => "invite",
        }
    }
}

/// One mask. Network-wide masks have no channel.
#[derive(Debug, Clone, PartialEq, Eq)]
pub struct Mask {
    pub id: MaskId,
    pub kind: MaskKind,
    /// `None` for network-wide masks.
    pub channel_id: Option<ChannelId>,
    /// IRC-style hostmask (`nick!user@host`, with `*` and `?` wildcards).
    pub mask: String,
    pub reason: Option<String>,
    /// Free-form "set by" identifier.
    pub set_by: Option<String>,
    /// Unix milliseconds.
    pub set_at: i64,
    /// Unix milliseconds; `None` for permanent masks.
    pub expires_at: Option<i64>,
    /// Sticky bans stay after the server's own ban timer fires.
    pub sticky: bool,
    pub updated_at: i64,
    pub origin_node: String,
}

/// What a [`Mask`] says.
pub struct MaskView {
    pub id: MaskId,
    pub kind: MaskKind,
    pub channel_id: Option<ChannelId>,
    pub mask: Seq<char>,
    pub reason: Option<Seq<char>>,
    pub set_by: Option<Seq<char>>,
    pub set_at: i64,
    pub expires_at: Option<i64>,
    pub sticky: bool,
    pub updated_at: i64,
    pub origin_node: Seq<char>,
}

impl View for Mask {
    type V = MaskView;

    open spec fn view(&self) -> MaskView {
        MaskView {
            id: self.id,
            kind: self.kind,
            channel_id: self.channel_id,
            mask: self.mask@,
            reason: text::opt_view(self.reason),
            set_by: text::opt_view(self.set_by),
            set_at: self.set_at,
            expires_at: self.expires_at,
            sticky: self.sticky,
            updated_at: self.updated_at,
            origin_node: self.origin_node@,
        }
    }
}

impl Mask {
    /// A copy of the record.
    pub fn copy(&self) -> (m: Self)
        ensures
            m@ == self@,
    {
        Mask {
            id: self.id,
            kind: self.kind,
            channel_id: self.channel_id,
            mask: self.mask.clone(),
            reason: text::opt_clone(&self.reason),
            set_by: text::opt_clone(&self.set_by),
            set_at: self.set_at,
            expires_at: self.expires_at,
            sticky: self.sticky,
            updated_at: self.updated_at,
            origin_node: self.origin_node.clone(),
        }
    }
}

/// Inputs to create a new mask.
#[derive(Debug, Clone, PartialEq, Eq)]
pub struct NewMask {
    pub kind: MaskKind,
    pub channel_id: Option<ChannelId>,
    pub mask: String,
    pub reason: Option<String>,
    pub set_by: Option<String>,
    pub expires_at: Option<i64>,
    pub sticky: bool,
}

/// What a [`NewMask`] says.
pub struct NewMaskView {
    pub kind: MaskKind,
    pub channel_id: Option<ChannelId>,
    pub mask: Seq<char>,
    pub reason: Option<Seq<char>>,
    pub set_by: Option<Seq<char>>,
    pub expires_at: Option<i64>,
    pub sticky: bool,
}

impl View for NewMask {
    type V = NewMaskView;

    open spec fn view(&self) -> NewMaskView {
        NewMaskView {
            kind: self.kind,
            channel_id: self.channel_id,
            mask: self.mask@,
            reason: text::opt_view(self.reason),
            set_by: text::opt_view(self.set_by),
            expires_at: self.expires_at,
            sticky: self.sticky,
        }
    }
}

} // verus!
