//! Writing and matching users.
//!
//! Every write stamps `updated_at` and `origin_node`. A user is found by handle,
//! without regard to case; its identifier and when it was made outlive every
//! write. The host list is replaced as a whole.

use crate::model::ids;
use crate::model::ids::UserId;
use crate::model::time;
use crate::model::time::now_ms;
use crate::model::user::{NewUser, NewUserView, User, UserView};
use crate::store::glob;
use crate::store::glob::irc_glob_match;
use crate::text;
use vstd::prelude::*;

verus! {

/// The row that a write of `new` leaves in the store: `existing` is the identifier
/// of the row with the same handle, when it was made, and when the user was last
/// seen.
pub open spec fn upserted(
    existing: Option<(UserId, i64, Option<i64>)>,
    new: NewUserView,
    fresh: UserId,
    now: i64,
    origin: Seq<char>,
) -> UserView {
    UserView {
        id: match existing {
            Some(e) => e.0,
            None => fresh,
        },
        handle: new.handle,
        password_hash: new.password_hash,
        is_bot: new.is_bot,
        global_flags: new.global_flags,
        comment: new.comment,
        hosts: new.hosts,
        created_at: match existing {
            Some(e) => e.1,
            None => now,
        },
        updated_at: now,
        last_seen_at: match existing {
            Some(e) => e.2,
            None => None,
        },
        origin_node: origin,
    }
}

/// The row that a write of `new_user` at `now` leaves in the store. A handle that
/// is new gets the identifier `fresh`.
pub fn upsert_row(
    existing: Option<(UserId, i64, Option<i64>)>,
    new_user: &NewUser,
    fresh: UserId,
    now: i64,
    origin_node: &str,
) -> (u: User)
    ensures
        u@ == upserted(existing, new_user@, fresh, now, origin_node@),
{
    let (id, created_at, last_seen_at) = match existing {
        Some((id, created_at, last_seen_at)) => (id, created_at, last_seen_at),
        None => (fresh, now, None),
    };
    User {
        id,
        handle: new_user.handle.clone(),
        password_hash: text::opt_clone(&new_user.password_hash),
        is_bot: new_user.is_bot,
        global_flags: new_user.global_flags,
        comment: text::opt_clone(&new_user.comment),
        hosts: text::copy_list(&new_user.hosts),
        created_at,
        updated_at: now,
        last_seen_at,
        origin_node: text::owned(origin_node),
    }
}

/// The row that a write of `new_user` leaves in the store now, under a fresh
/// identifier if its handle is new.
pub fn upsert_in_tx(
    existing: Option<(UserId, i64, Option<i64>)>,
    new_user: &NewUser,
    origin_node: &str,
) -> (u: User)
    ensures
        exists|fresh: UserId, now: i64|
            ids::is_fresh(fresh.0) && time::is_reading(now) && u@ == #[trigger] upserted(
                existing,
                new_user@,
                fresh,
                now,
                origin_node@,
            ),
{
    let now = now_ms();
    let fresh = UserId::new();
    upsert_row(existing, new_user, fresh, now, origin_node)
}

/// The owner of the first hostmask that `host` matches.
pub open spec fn owner_of(rows: Seq<(UserId, Seq<char>)>, host: Seq<char>) -> Option<UserId>
    decreases rows.len(),
{
    if rows.len() == 0 {
        None
    } else if glob::glob(rows[0].1, host) {
        Some(rows[0].0)
    } else {
        owner_of(rows.drop_first(), host)
    }
}

/// The views of a list of owned hostmasks.
pub open spec fn owned_masks(rows: Seq<(UserId, String)>) -> Seq<(UserId, Seq<char>)> {
    Seq::new(rows.len(), |i: int| (rows[i].0, rows[i].1@))
}

/// Match a `nick!user@host` string against every user's stored hostmasks: the
/// owner of the first one that matches. This identifies a user; it grants no
/// permission by itself.
pub fn match_by_host(rows: &Vec<(UserId, String)>, host: &str) -> (r: Option<UserId>)
    ensures
        r == owner_of(owned_masks(rows@), host@),
{
    let ghost all = owned_masks(rows@);
    let mut i: usize = 0;
    assert(all.skip(0) =~= all);
    while i < rows.len()
        invariant
            i <= rows.len(),
            all == owned_masks(rows@),
            owner_of(all, host@) == owner_of(all.skip(i as int), host@),
        decreases rows.len() - i,
    {
        assert(all.skip(i as int).drop_first() =~= all.skip(i + 1));
        if irc_glob_match(rows[i].1.as_str(), host) {
            return Some(rows[i].0);
        }
        i = i + 1;
    }
    None
}

// ----- laws ------------------------------------------------------------------

/// Writing a user again keeps its identifier, when it was made and when it was last
/// seen, and replaces everything that an operator can set.
pub proof fn rewriting_keeps_identity(
    new: NewUserView,
    again: NewUserView,
    fresh: UserId,
    other: UserId,
    first: i64,
    later: i64,
    seen: Option<i64>,
    origin: Seq<char>,
    origin2: Seq<char>,
)
    ensures
        ({
            let a = upserted(None, new, fresh, first, origin);
            let b = upserted(Some((a.id, a.created_at, seen)), again, other, later, origin2);
            &&& b.id == a.id
            &&& b.created_at == a.created_at
            &&& b.last_seen_at == seen
            &&& b.updated_at == later
            &&& b.origin_node == origin2
            &&& b.editable() == again
        }),
{
}

/// A user with a hostmask that matches is found.
pub proof fn matching_host_is_found(rows: Seq<(UserId, Seq<char>)>, host: Seq<char>, i: int)
    requires
        0 <= i < rows.len(),
        glob::glob(rows[i].1, host),
    ensures
        owner_of(rows, host) is Some,
    decreases rows.len(),
{
    if !glob::glob(rows[0].1, host) {
        assert(rows.drop_first()[i - 1] == rows[i]);
        matching_host_is_found(rows.drop_first(), host, i - 1);
    }
}

} // verus!
