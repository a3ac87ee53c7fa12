//! Per-channel bot roles.
//!
//! Each channel-management responsibility (op someone, kick someone, defend the
//! topic) is assigned to a deterministic subset of the linked bots: the same
//! set of peers gives the same assignment everywhere.

use crate::text;
use vstd::prelude::*;

verus! {

/// Per-channel role types.
#[derive(Debug, Clone, Copy, PartialEq, Eq, PartialOrd, Ord, Hash, Structural)]
pub enum Role {
    Voice,
    Flood,
    Op,
    Deop,
    Kick,
    Ban,
    Topic,
    Limit,
    Revenge,
    ChanMode,
    Protect,
    Invite,
}

/// `(role, slots)` table: how many bots are assigned to each role. Its order is
/// the order of the roles.
pub const ROLE_COUNTS: [(Role, u8); 12] = [
    (Role::Voice, 1),
    (Role::Flood, 3),
    (Role::Op, 1),
    (Role::Deop, 1),
    (Role::Kick, 2),
    (Role::Ban, 2),
    (Role::Topic, 1),
    (Role::Limit, 1),
    (Role::Revenge, 3),
    (Role::ChanMode, 1),
    (Role::Protect, 2),
    (Role::Invite, 1),
];

/// The position of a role in the table.
pub open spec fn role_index(role: Role) -> int {
    match role {
        Role::Voice => 0,
        Role::Flood => 1,
        Role::Op => 2,
        Role::Deop => 3,
        Role::Kick => 4,
        Role::Ban => 5,
        Role::Topic => 6,
        Role::Limit => 7,
        Role::Revenge => 8,
        Role::ChanMode => 9,
        Role::Protect => 10,
        Role::Invite => 11,
    }
}

/// The number of bots assigned to a role.
pub open spec fn slots(role: Role) -> int {
    ROLE_COUNTS@[role_index(role)].1 as int
}

/// The table lists every role at its own position.
pub proof fn table_is_in_order(role: Role)
    ensures
        0 <= role_index(role) < 12,
        ROLE_COUNTS@[role_index(role)].0 == role,
{
}

/// Two roles at one position are the same role.
pub proof fn position_names_role(a: Role, b: Role)
    requires
        role_index(a) == role_index(b),
    ensures
        a == b,
{
}

impl Role {
    /// Storage number of the role, from 1.
    #[must_use]
    pub fn as_i64(self) -> (n: i64)
        ensures
            n == role_index(self) + 1,
    {
        match self {
            Role::Voice => 1,
            Role::Flood => 2,
            Role::Op => 3,
            Role::Deop => 4,
            Role::Kick => 5,
            Role::Ban => 6,
            Role::Topic => 7,
            Role::Limit => 8,
            Role::Revenge => 9,
            Role::ChanMode => 10,
            Role::Protect => 11,
            Role::Invite => 12,
        }
    }

    /// The role with a storage number; `None` for unknown numbers.
    #[must_use]
    pub fn from_i64(v: i64) -> (r: Option<Self>)
        ensures
            r is Some == (1 <= v <= 12),
            r matches Some(role) ==> role_index(role) + 1 == v,
    {
        if v == 1 {
            Some(Role::Voice)
        } else if v == 2 {
            Some(Role::Flood)
        } else if v == 3 {
            Some(Role::Op)
        } else if v == 4 {
            Some(Role::Deop)
        } else if v == 5 {
            Some(Role::Kick)
        } else if v == 6 {
            Some(Role::Ban)
        } else if v == 7 {
            Some(Role::Topic)
        } else if v == 8 {
            Some(Role::Limit)
        } else if v == 9 {
            Some(Role::Revenge)
        } else if v == 10 {
            Some(Role::ChanMode)
        } else if v == 11 {
            Some(Role::Protect)
        } else if v == 12 {
            Some(Role::Invite)
        } else {
            None
        }
    }
}

/// Number of bots assigned to `role`.
#[must_use]
pub fn slots_for(role: Role) -> (n: u8)
    ensures
        n == slots(role),
{
    let mut i: usize = 0;
    while i < 12
        invariant
            i <= 12,
            i <= role_index(role),
        decreases 12 - i,
    {
        let (r, n) = ROLE_COUNTS[i];
        proof {
            table_is_in_order(role);
        }
        if r == role {
            assert(role_index(role) == i) by {
                assert(role_index(ROLE_COUNTS@[i as int].0) == i);
            }
            return n;
        }
        i = i + 1;
    }
    proof {
        table_is_in_order(role);
    }
    0
}

// ----- names ------------------------------------------------------------------

/// The name of a role, in lower case.
pub open spec fn role_name(role: Role) -> Seq<char> {
    match role {
        Role::Voice => "voice"@,
        Role::Flood => "flood"@,
        Role::Op => "op"@,
        Role::Deop => "deop"@,
        Role::Kick => "kick"@,
        Role::Ban => "ban"@,
        Role::Topic => "topic"@,
        Role::Limit => "limit"@,
        Role::Revenge => "revenge"@,
        Role::ChanMode => "chanmode"@,
        Role::Protect => "protect"@,
        Role::Invite => "invite"@,
    }
}

impl Role {
    /// The name of the role, in lower case.
    #[must_use]
    pub fn name(self) -> (s: &'static str)
        ensures
            s@ == role_name(self),
    {
        match self {
            Role::Voice => "voice",
            Role::Flood => "flood",
            Role::Op => "op",
            Role::Deop => "deop",
            Role::Kick => "kick",
            Role::Ban => "ban",
            Role::Topic => "topic",
            Role::Limit => "limit",
            Role::Revenge => "revenge",
            Role::ChanMode => "chanmode",
            Role::Protect => "protect",
            Role::Invite => "invite",
        }
    }

    /// The role with a name.
    #[must_use]
    pub fn from_name(name: &str) -> (r: Option<Self>)
        ensures
            match r {
                Some(role) => name@ == role_name(role),
                None => forall|role: Role| name@ != #[trigger] role_name(role),
            },
    {
        if text::str_eq(name, "voice") {
            Some(Role::Voice)
        } else if text::str_eq(name, "flood") {
            Some(Role::Flood)
        } else if text::str_eq(name, "op") {
            Some(Role::Op)
        } else if text::str_eq(name, "deop") {
            Some(Role::Deop)
        } else if text::str_eq(name, "kick") {
            Some(Role::Kick)
        } else if text::str_eq(name, "ban") {
            Some(Role::Ban)
        } else if text::str_eq(name, "topic") {
            Some(Role::Topic)
        } else if text::str_eq(name, "limit") {
            Some(Role::Limit)
        } else if text::str_eq(name, "revenge") {
            Some(Role::Revenge)
        } else if text::str_eq(name, "chanmode") {
            Some(Role::ChanMode)
        } else if text::str_eq(name, "protect") {
            Some(Role::Protect)
        } else if text::str_eq(name, "invite") {
            Some(Role::Invite)
        } else {
            None
        }
    }
}

/// No two roles share a name, so that a name is read back as the role it came from.
pub proof fn role_names_are_distinct(a: Role, b: Role)
    requires
        role_name(a) == role_name(b),
    ensures
        a == b,
{
    reveal_strlit("voice");
    reveal_strlit("flood");
    reveal_strlit("op");
    reveal_strlit("deop");
    reveal_strlit("kick");
    reveal_strlit("ban");
    reveal_strlit("topic");
    reveal_strlit("limit");
    reveal_strlit("revenge");
    reveal_strlit("chanmode");
    reveal_strlit("protect");
    reveal_strlit("invite");
    let x = role_name(a);
    assert(x[0] == role_name(b)[0] && x[1] == role_name(b)[1] && x.len() == role_name(b).len());
}

} // verus!
