//! Writing masks, and matching hosts against ban lists.

use crate::model::ids;
use crate::model::ids::MaskId;
use crate::model::mask::{Mask, MaskView, NewMask, NewMaskView};
use crate::model::time;
use crate::model::time::now_ms;
use crate::store::glob;
use crate::store::glob::irc_glob_match;
use crate::text;
use crate::views;
use vstd::prelude::*;

verus! {

/// The row that a new mask is stored as.
pub open spec fn inserted(new: NewMaskView, id: MaskId, now: i64, origin: Seq<char>) -> MaskView {
    MaskView {
        id,
        kind: new.kind,
        channel_id: new.channel_id,
        mask: new.mask,
        reason: new.reason,
        set_by: new.set_by,
        set_at: now,
        expires_at: new.expires_at,
        sticky: new.sticky,
        updated_at: now,
        origin_node: origin,
    }
}

/// The row that a new mask is stored as, under the identifier `id`.
pub fn insert_row(new_mask: &NewMask, id: MaskId, now: i64, origin_node: &str) -> (m: Mask)
    ensures
        m@ == inserted(new_mask@, id, now, origin_node@),
{
    Mask {
        id,
        kind: new_mask.kind,
        channel_id: new_mask.channel_id,
        mask: new_mask.mask.clone(),
        reason: text::opt_clone(&new_mask.reason),
        set_by: text::opt_clone(&new_mask.set_by),
        set_at: now,
        expires_at: new_mask.expires_at,
        sticky: new_mask.sticky,
        updated_at: now,
        origin_node: text::owned(origin_node),
    }
}

/// The row that a new mask is stored as now, under a fresh identifier.
pub fn insert(new_mask: &NewMask, origin_node: &str) -> (m: Mask)
    ensures
        exists|id: MaskId, now: i64|
            ids::is_fresh(id.0) && time::is_reading(now) && m@ == #[trigger] inserted(new_mask@, id, now, origin_node@),
{
    let now = now_ms();
    let id = MaskId::new();
    insert_row(new_mask, id, now, origin_node)
}

/// The first mask of a list that `host` matches.
pub open spec fn first_match(ms: Seq<MaskView>, host: Seq<char>) -> Option<MaskView>
    decreases ms.len(),
{
    if ms.len() == 0 {
        None
    } else if glob::glob(ms[0].mask, host) {
        Some(ms[0])
    } else {
        first_match(ms.drop_first(), host)
    }
}

/// The ban that catches `host`: none if an exempt covers it.
pub open spec fn ban_for(bans: Seq<MaskView>, exempts: Seq<MaskView>, host: Seq<char>) -> Option<
    MaskView,
> {
    if first_match(exempts, host) is Some {
        None
    } else {
        first_match(bans, host)
    }
}

/// A list of masks after another is searched when the other has no match.
proof fn lemma_concat(a: Seq<MaskView>, b: Seq<MaskView>, host: Seq<char>)
    ensures
        first_match(a + b, host) == if first_match(a, host) is Some {
            first_match(a, host)
        } else {
            first_match(b, host)
        },
    decreases a.len(),
{
    if a.len() == 0 {
        assert(a + b =~= b);
    } else {
        assert((a + b).drop_first() =~= a.drop_first() + b);
        lemma_concat(a.drop_first(), b, host);
    }
}

fn find_match<'a>(ms: &'a Vec<Mask>, host: &str) -> (r: Option<&'a Mask>)
    ensures
        views::borrowed(r) == first_match(views::list(ms@), host@),
{
    let ghost all = views::list(ms@);
    let mut i: usize = 0;
    assert(all.skip(0) =~= all);
    while i < ms.len()
        invariant
            i <= ms.len(),
            all == views::list(ms@),
            first_match(all, host@) == first_match(all.skip(i as int), host@),
        decreases ms.len() - i,
    {
        assert(all.skip(i as int).drop_first() =~= all.skip(i + 1));
        if irc_glob_match(ms[i].mask.as_str(), host) {
            return Some(&ms[i]);
        }
        i = i + 1;
    }
    None
}

/// Match a `nick!user@host` against the bans of a channel, then the
/// network-wide ones: the first matching ban. Exempts override bans: if `host`
/// matches any exempt of the channel or of the network, no ban is returned.
pub fn match_ban<'a>(
    channel_bans: &'a Vec<Mask>,
    global_bans: &'a Vec<Mask>,
    channel_exempts: &Vec<Mask>,
    global_exempts: &Vec<Mask>,
    host: &str,
) -> (r: Option<&'a Mask>)
    ensures
        views::borrowed(r) == ban_for(
            views::list(channel_bans@) + views::list(global_bans@),
            views::list(channel_exempts@) + views::list(global_exempts@),
            host@,
        ),
{
    proof {
        lemma_concat(views::list(channel_bans@), views::list(global_bans@), host@);
        lemma_concat(views::list(channel_exempts@), views::list(global_exempts@), host@);
    }
    if find_match(channel_exempts, host).is_some() || find_match(global_exempts, host).is_some() {
        return None;
    }
    match find_match(channel_bans, host) {
        Some(m) => Some(m),
        None => find_match(global_bans, host),
    }
}

// ----- laws ------------------------------------------------------------------

/// An exempt that matches saves a host from every ban.
pub proof fn exempt_overrides_bans(
    bans: Seq<MaskView>,
    exempts: Seq<MaskView>,
    host: Seq<char>,
    i: int,
)
    requires
        0 <= i < exempts.len(),
        glob::glob(exempts[i].mask, host),
    ensures
        ban_for(bans, exempts, host) is None,
{
    matching_mask_is_found(exempts, host, i);
}

/// A list with a mask that matches has a first match, and that one matches.
pub proof fn matching_mask_is_found(ms: Seq<MaskView>, host: Seq<char>, i: int)
    requires
        0 <= i < ms.len(),
        glob::glob(ms[i].mask, host),
    ensures
        first_match(ms, host) matches Some(m) && ms.contains(m) && glob::glob(m.mask, host),
    decreases ms.len(),
{
    if glob::glob(ms[0].mask, host) {
        assert(ms.contains(ms[0]));
    } else {
        let rest = ms.drop_first();
        assert(rest[i - 1] == ms[i]);
        matching_mask_is_found(rest, host, i - 1);
        let m = first_match(rest, host)->0;
        let j = choose|j: int| 0 <= j < rest.len() && rest[j] == m;
        assert(ms[j + 1] == m);
    }
}

} // verus!
