//! Deterministic role distribution.
//!
//! Each node, given the same set of eligible peers, computes the same
//! assignment for each role: no leader election, no consensus.
//!
//! 1. Sort the eligible peers by node id, dropping repeats.
//! 2. The role at index `i` goes to `slots_for(role)` peers starting at offset
//!    `i % len`, walking forward with wraparound; never to more peers than
//!    there are.

use crate::model::role;
use crate::model::role::{Role, ROLE_COUNTS};
use crate::order;
use crate::text;
use crate::text_set::TextSet;
use vstd::prelude::*;

verus! {

/// The peers assigned to each role of one channel.
#[derive(Debug, PartialEq, Eq)]
pub struct Assignment {
    peers: Vec<Vec<String>>,
}

/// How many of `n` peers fill `slots` slots.
pub open spec fn filled(slots: int, n: int) -> int {
    if slots <= n {
        slots
    } else {
        n
    }
}

/// The peers of a role: from the sorted list of `eligible`, starting at the
/// role's index and wrapping around.
pub open spec fn assigned(eligible: Set<Seq<char>>, r: Role) -> Seq<Seq<char>> {
    let sorted = order::listing(eligible);
    Seq::new(
        filled(role::slots(r), sorted.len() as int) as nat,
        |k: int| sorted[(role::role_index(r) % sorted.len() as int + k) % sorted.len() as int],
    )
}

impl Assignment {
    /// The peers of a role, by node id.
    pub closed spec fn of(&self, r: Role) -> Seq<Seq<char>> {
        text::views(self.peers@[role::role_index(r)]@)
    }

    #[verifier::type_invariant]
    spec fn complete(self) -> bool {
        self.peers@.len() == 12
    }

    /// The peers assigned to a role.
    pub fn get(&self, role: &Role) -> (r: Option<&Vec<String>>)
        ensures
            r matches Some(v) && text::views(v@) == self.of(*role),
    {
        proof {
            use_type_invariant(self);
            role::table_is_in_order(*role);
        }
        Some(&self.peers[(role.as_i64() - 1) as usize])
    }
}

/// Compute the role assignment for a single channel.
///
/// `eligible_peers` should be the peers that are mesh-connected, joined to the
/// channel, opped, and advertise the `roles` feature; the caller sees to that.
/// Order and repeats do not matter.
#[must_use]
pub fn compute_assignment(eligible_peers: &[String]) -> (a: Assignment)
    ensures
        forall|r: Role| #[trigger]
            a.of(r) == assigned(text::views(eligible_peers@).to_set(), r),
{
    let set = TextSet::from_slice(eligible_peers);
    let sorted = set.to_vec();
    let ghost eligible = set@;
    let ghost list = order::listing(eligible);
    let mut peers: Vec<Vec<String>> = Vec::new();
    let mut idx: usize = 0;
    while idx < 12
        invariant
            idx <= 12,
            list == order::listing(eligible),
            text::views(sorted@) == list,
            peers@.len() == idx,
            forall|r: Role|
                role::role_index(r) < idx ==> text::views(
                    #[trigger] peers@[role::role_index(r)]@,
                ) == assigned(eligible, r),
        decreases 12 - idx,
    {
        let (r, slots) = ROLE_COUNTS[idx];
        let n: usize = slots as usize;
        let take: usize = if n <= sorted.len() { n } else { sorted.len() };
        let mut row: Vec<String> = Vec::new();
        let ghost want = assigned(eligible, r);
        proof {
            role::table_is_in_order(r);
            assert(role::role_index(r) == idx);
        }
        let mut offset: usize = 0;
        while offset < take
            invariant
                offset <= take,
                idx < 12,
                take <= sorted.len(),
                text::views(sorted@) == list,
                want == assigned(eligible, r),
                list == order::listing(eligible),
                take == want.len(),
                role::role_index(r) == idx,
                take <= 3,
                row@.len() == offset,
                forall|j: int| 0 <= j < offset ==> (#[trigger] row@[j])@ == want[j],
            decreases take - offset,
        {
            let start: usize = idx % sorted.len();
            proof {
                let len = sorted@.len() as int;
                let i = idx as int;
                assert(i % len <= i) by (nonlinear_arith)
                    requires
                        0 <= i,
                        0 < len,
                ;
            }
            let sum: u64 = start as u64 + offset as u64;
            let at: usize = (sum % sorted.len() as u64) as usize;
            assert(list[at as int] == sorted@[at as int]@);
            row.push(sorted[at].clone());
            offset = offset + 1;
        }
        assert(text::views(row@) =~= want);
        peers.push(row);
        idx = idx + 1;
        proof {
            assert forall|q: Role| role::role_index(q) < idx implies text::views(
                #[trigger] peers@[role::role_index(q)]@,
            ) == assigned(eligible, q) by {
                if role::role_index(q) == idx - 1 {
                    role::position_names_role(q, r);
                }
            }
        }
    }
    let a = Assignment { peers };
    proof {
        assert forall|r: Role| #[trigger] a.of(r) == assigned(
            text::views(eligible_peers@).to_set(),
            r,
        ) by {
            role::table_is_in_order(r);
            assert(text::views(a.peers@[role::role_index(r)]@) == assigned(eligible, r));
        }
    }
    a
}

/// True if `node_id` is one of the peers assigned to `role` for this channel.
#[must_use]
pub fn holds_role(eligible_peers: &[String], node_id: &str, role: Role) -> (b: bool)
    ensures
        b == assigned(text::views(eligible_peers@).to_set(), role).contains(node_id@),
{
    let a = compute_assignment(eligible_peers);
    match a.get(&role) {
        None => false,
        Some(peers) => {
            let ghost want = assigned(text::views(eligible_peers@).to_set(), role);
            assert(text::views(peers@) == a.of(role));
            let mut i: usize = 0;
            while i < peers.len()
                invariant
                    i <= peers.len(),
                    text::views(peers@) == want,
                    want == assigned(text::views(eligible_peers@).to_set(), role),
                    forall|j: int| 0 <= j < i ==> want[j] != node_id@,
                decreases peers.len() - i,
            {
                assert(want[i as int] == peers@[i as int]@);
                if text::str_eq(peers[i].as_str(), node_id) {
                    return true;
                }
                i = i + 1;
            }
            false
        },
    }
}

// ----- laws ------------------------------------------------------------------

/// The assignment is the same everywhere: lists with the same peers, in any
/// order and with any repeats, give the same assignment.
pub proof fn assignment_ignores_order_and_repeats(
    a: Seq<Seq<char>>,
    b: Seq<Seq<char>>,
    r: Role,
)
    requires
        forall|p: Seq<char>| a.contains(p) <==> b.contains(p),
    ensures
        assigned(a.to_set(), r) == assigned(b.to_set(), r),
{
    assert(a.to_set() =~= b.to_set());
}

/// A role never goes to more peers than it has slots, nor to more than there
/// are; it goes to none only when there are none.
pub proof fn slots_are_capped(peers: Seq<Seq<char>>, r: Role)
    ensures
        assigned(peers.to_set(), r).len() == filled(role::slots(r), peers.to_set().len() as int),
        assigned(peers.to_set(), r).len() == 0 <==> peers.len() == 0,
{
    vstd::seq_lib::seq_to_set_is_finite(peers);
    order::listing_of_finite(peers.to_set());
    if peers.len() > 0 {
        assert(peers.to_set().contains(peers[0]));
    } else {
        assert(peers.to_set() =~= Set::empty());
    }
    assert(role::slots(r) >= 1);
}

/// Every peer of a role is eligible.
pub proof fn assigned_peers_are_eligible(peers: Seq<Seq<char>>, r: Role, k: int)
    requires
        0 <= k < assigned(peers.to_set(), r).len(),
    ensures
        peers.contains(assigned(peers.to_set(), r)[k]),
{
    vstd::seq_lib::seq_to_set_is_finite(peers);
    order::listing_of_finite(peers.to_set());
    let l = order::listing(peers.to_set());
    let n = l.len() as int;
    let at = (role::role_index(r) % n + k) % n;
    assert(l.to_set().contains(l[at]));
}

/// No peer fills two slots of one role.
pub proof fn no_peer_twice(peers: Seq<Seq<char>>, r: Role, j: int, k: int)
    requires
        0 <= j < k < assigned(peers.to_set(), r).len(),
    ensures
        assigned(peers.to_set(), r)[j] != assigned(peers.to_set(), r)[k],
{
    vstd::seq_lib::seq_to_set_is_finite(peers);
    order::listing_of_finite(peers.to_set());
    let l = order::listing(peers.to_set());
    let n = l.len() as int;
    let s = role::role_index(r) % n;
    assert(assigned(peers.to_set(), r).len() <= n);
    let x = (s + j) % n;
    let y = (s + k) % n;
    assert(x != y) by (nonlinear_arith)
        requires
            0 <= s < n,
            0 <= j < k,
            k < n,
            x == (s + j) % n,
            y == (s + k) % n,
    {
        if s + k < n {
            assert(x == s + j && y == s + k);
        } else if s + j < n {
            assert(x == s + j);
            assert(y == s + k - n);
        } else {
            assert(x == s + j - n);
            assert(y == s + k - n);
        }
    }
    if x < y {
        order::lex_asymmetric(l[x], l[y]);
    } else {
        order::lex_asymmetric(l[y], l[x]);
    }
}

} // verus!
