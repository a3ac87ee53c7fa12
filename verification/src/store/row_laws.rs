//! What a merge stores, field by field, and when it stores it.

use crate::model::channel::{Channel, ChannelSettings, ChannelUserFlags};
use crate::model::mask::Mask;
use crate::model::user::User;
use crate::order;
use crate::store::gossip;
use crate::store::gossip::{MaskDeletion, Tombstone};
use vstd::prelude::*;

verus! {

/// Whether a list of texts holds the same texts as another, each in its place.
pub open spec fn same_texts(a: Seq<String>, b: Seq<String>) -> bool {
    &&& a.len() == b.len()
    &&& forall|i: int| 0 <= i < a.len() ==> #[trigger] a[i]@ == b[i]@
}

/// Whether two optional texts are both missing or say the same.
pub open spec fn same_optional(a: Option<String>, b: Option<String>) -> bool {
    match (a, b) {
        (Some(x), Some(y)) => x@ == y@,
        (None, None) => true,
        _ => false,
    }
}

// ----- which write wins ---------------------------------------------------------

/// The later of two writes wins. Of two that are as late, the one of the node whose
/// name comes first does, and none wins over one of its own node.
pub proof fn later_write_wins(at: i64, origin: &str, than_at: i64, than_origin: &str, b: bool)
    requires
        call_ensures(gossip::wins, (at, origin, than_at, than_origin), b),
    ensures
        at > than_at ==> b,
        at < than_at ==> !b,
        at == than_at && order::lex_lt(origin@, than_origin@) ==> b,
        at == than_at && order::lex_lt(than_origin@, origin@) ==> !b,
        at == than_at && origin@ == than_origin@ ==> !b,
{
    order::lex_irreflexive(origin@);
    if order::lex_lt(than_origin@, origin@) {
        order::lex_asymmetric(than_origin@, origin@);
    }
}

/// The first character in which two texts differ decides which comes first, by its
/// code point, whatever follows; a text comes before each that goes on from it.
pub proof fn first_difference_decides(p: Seq<char>, x: char, y: char, s: Seq<char>, t: Seq<char>)
    requires
        x != y,
    ensures
        order::lex_lt(p + seq![x] + s, p + seq![y] + t) == ((x as int) < (y as int)),
        order::lex_lt(p, p + seq![x] + s),
        !order::lex_lt(p + seq![x] + s, p),
    decreases p.len(),
{
    let a = p + seq![x] + s;
    let b = p + seq![y] + t;
    if p.len() > 0 {
        let q = p.drop_first();
        first_difference_decides(q, x, y, s, t);
        assert(a.drop_first() =~= q + seq![x] + s);
        assert(b.drop_first() =~= q + seq![y] + t);
        assert(a[0] == p[0] && b[0] == p[0]);
    } else {
        assert(a[0] == x && b[0] == y);
    }
}

// ----- users --------------------------------------------------------------------

/// A user row that is stored says what the remote row says in every field that a
/// write sets. When the user was made and last seen stays as it was here.
pub proof fn stored_user_is_the_remote_one(local: Option<&User>, remote: &User, w: User)
    requires
        call_ensures(gossip::apply_user_upsert, (local, remote), Some(w)),
    ensures
        w.id == remote.id,
        w.handle@ == remote.handle@,
        same_optional(w.password_hash, remote.password_hash),
        w.is_bot == remote.is_bot,
        w.global_flags == remote.global_flags,
        same_optional(w.comment, remote.comment),
        same_texts(w.hosts@, remote.hosts@),
        w.updated_at == remote.updated_at,
        w.origin_node@ == remote.origin_node@,
        local matches Some(l) ==> w.created_at == l.created_at && w.last_seen_at == l.last_seen_at,
        local is None ==> w.created_at == remote.created_at && w.last_seen_at is None,
{
    assert(w@.hosts == remote@.hosts);
    assert forall|i: int| 0 <= i < w.hosts@.len() implies #[trigger] w.hosts@[i]@
        == remote.hosts@[i]@ by {
        assert(w@.hosts[i] == remote@.hosts[i]);
    }
    assert(w@.password_hash == remote@.password_hash);
    assert(w@.comment == remote@.comment);
}

/// A user row is stored if it is new here or wins over the local one, and only then.
pub proof fn newer_user_is_stored(local: Option<&User>, remote: &User, r: Option<User>)
    requires
        call_ensures(gossip::apply_user_upsert, (local, remote), r),
    ensures
        local is None ==> r is Some,
        local matches Some(l) ==> {
            &&& remote.updated_at > l.updated_at ==> r is Some
            &&& remote.updated_at < l.updated_at ==> r is None
            &&& remote.updated_at == l.updated_at ==> r is Some == order::lex_lt(
                remote.origin_node@,
                l.origin_node@,
            )
        },
{
}

/// A delete takes a user row that it is later than, or that is as late and of a node
/// whose name comes after; no other.
pub proof fn newer_delete_takes_the_user(
    local: Option<&User>,
    updated_at: i64,
    origin_node: &str,
    b: bool,
)
    requires
        call_ensures(gossip::apply_user_delete, (local, updated_at, origin_node), b),
    ensures
        local is None ==> !b,
        local matches Some(l) ==> {
            &&& updated_at > l.updated_at ==> b
            &&& updated_at < l.updated_at ==> !b
            &&& updated_at == l.updated_at ==> b == order::lex_lt(origin_node@, l.origin_node@)
        },
{
}

// ----- channels -----------------------------------------------------------------

/// A channel row that is stored says what the remote row says. When the channel was
/// made stays as it was here.
pub proof fn stored_channel_is_the_remote_one(local: Option<&Channel>, remote: &Channel, w: Channel)
    requires
        call_ensures(gossip::apply_channel_upsert, (local, remote), Some(w)),
    ensures
        w.id == remote.id,
        w.name@ == remote.name@,
        w.updated_at == remote.updated_at,
        w.origin_node@ == remote.origin_node@,
        local matches Some(l) ==> w.created_at == l.created_at,
        local is None ==> w.created_at == remote.created_at,
{
}

/// A channel row is stored if it is new here or wins over the local one, and only
/// then.
pub proof fn newer_channel_is_stored(local: Option<&Channel>, remote: &Channel, r: Option<Channel>)
    requires
        call_ensures(gossip::apply_channel_upsert, (local, remote), r),
    ensures
        local is None ==> r is Some,
        local matches Some(l) ==> {
            &&& remote.updated_at > l.updated_at ==> r is Some
            &&& remote.updated_at < l.updated_at ==> r is None
            &&& remote.updated_at == l.updated_at ==> r is Some == order::lex_lt(
                remote.origin_node@,
                l.origin_node@,
            )
        },
{
}

/// A delete takes a channel row that it is later than, or that is as late and of a
/// node whose name comes after; no other.
pub proof fn newer_delete_takes_the_channel(
    local: Option<&Channel>,
    updated_at: i64,
    origin_node: &str,
    b: bool,
)
    requires
        call_ensures(gossip::apply_channel_delete, (local, updated_at, origin_node), b),
    ensures
        local is None ==> !b,
        local matches Some(l) ==> {
            &&& updated_at > l.updated_at ==> b
            &&& updated_at < l.updated_at ==> !b
            &&& updated_at == l.updated_at ==> b == order::lex_lt(origin_node@, l.origin_node@)
        },
{
}

// ----- channel settings ---------------------------------------------------------

/// Settings that are stored say what the remote ones say.
pub proof fn stored_settings_are_the_remote_ones(
    local: Option<&ChannelSettings>,
    remote: &ChannelSettings,
    w: ChannelSettings,
)
    requires
        call_ensures(gossip::apply_channel_settings_upsert, (local, remote), Some(w)),
    ensures
        w.channel_id == remote.channel_id,
        w.flags == remote.flags,
        w.mode_pls@ == remote.mode_pls@,
        w.mode_mns@ == remote.mode_mns@,
        w.limit_prot == remote.limit_prot,
        same_optional(w.key_prot, remote.key_prot),
        same_optional(w.topic_saved, remote.topic_saved),
        w.updated_at == remote.updated_at,
        w.origin_node@ == remote.origin_node@,
{
    assert(w@.key_prot == remote@.key_prot);
    assert(w@.topic_saved == remote@.topic_saved);
}

/// Settings are stored if there are none here or they win over the local ones, and
/// only then.
pub proof fn newer_settings_are_stored(
    local: Option<&ChannelSettings>,
    remote: &ChannelSettings,
    r: Option<ChannelSettings>,
)
    requires
        call_ensures(gossip::apply_channel_settings_upsert, (local, remote), r),
    ensures
        local is None ==> r is Some,
        local matches Some(l) ==> {
            &&& remote.updated_at > l.updated_at ==> r is Some
            &&& remote.updated_at < l.updated_at ==> r is None
            &&& remote.updated_at == l.updated_at ==> r is Some == order::lex_lt(
                remote.origin_node@,
                l.origin_node@,
            )
        },
{
}

// ----- channel user flags -------------------------------------------------------

/// A flag row that is stored says what the remote one says.
pub proof fn stored_flags_are_the_remote_ones(
    local: Option<&ChannelUserFlags>,
    remote: &ChannelUserFlags,
    w: ChannelUserFlags,
)
    requires
        call_ensures(gossip::apply_channel_user_flags_upsert, (local, remote), Some(w)),
    ensures
        w.channel_id == remote.channel_id,
        w.user_id == remote.user_id,
        w.flags == remote.flags,
        w.updated_at == remote.updated_at,
        w.origin_node@ == remote.origin_node@,
{
}

/// A flag row is stored if it is new here or wins over the local one, and only then.
pub proof fn newer_flags_are_stored(
    local: Option<&ChannelUserFlags>,
    remote: &ChannelUserFlags,
    r: Option<ChannelUserFlags>,
)
    requires
        call_ensures(gossip::apply_channel_user_flags_upsert, (local, remote), r),
    ensures
        local is None ==> r is Some,
        local matches Some(l) ==> {
            &&& remote.updated_at > l.updated_at ==> r is Some
            &&& remote.updated_at < l.updated_at ==> r is None
            &&& remote.updated_at == l.updated_at ==> r is Some == order::lex_lt(
                remote.origin_node@,
                l.origin_node@,
            )
        },
{
}

/// A delete takes a flag row that it is later than, or that is as late and of a node
/// whose name comes after; no other.
pub proof fn newer_delete_takes_the_flags(
    local: Option<&ChannelUserFlags>,
    updated_at: i64,
    origin_node: &str,
    b: bool,
)
    requires
        call_ensures(gossip::apply_channel_user_flags_delete, (local, updated_at, origin_node), b),
    ensures
        local is None ==> !b,
        local matches Some(l) ==> {
            &&& updated_at > l.updated_at ==> b
            &&& updated_at < l.updated_at ==> !b
            &&& updated_at == l.updated_at ==> b == order::lex_lt(origin_node@, l.origin_node@)
        },
{
}

// ----- masks --------------------------------------------------------------------

/// A mask that is stored says what the remote one says.
pub proof fn stored_mask_is_the_remote_one(
    local: Option<&Mask>,
    tombstone: Option<&Tombstone>,
    remote: &Mask,
    w: Mask,
)
    requires
        call_ensures(gossip::apply_mask_upsert, (local, tombstone, remote), Some(w)),
    ensures
        w.id == remote.id,
        w.kind == remote.kind,
        w.channel_id == remote.channel_id,
        w.mask@ == remote.mask@,
        same_optional(w.reason, remote.reason),
        same_optional(w.set_by, remote.set_by),
        w.set_at == remote.set_at,
        w.expires_at == remote.expires_at,
        w.sticky == remote.sticky,
        w.updated_at == remote.updated_at,
        w.origin_node@ == remote.origin_node@,
{
    assert(w@.reason == remote@.reason);
    assert(w@.set_by == remote@.set_by);
}

/// A mask is stored if it wins over the local one, where there is one, and over the
/// trace of a delete, where there is one; and only then.
pub proof fn newer_mask_is_stored(
    local: Option<&Mask>,
    tombstone: Option<&Tombstone>,
    remote: &Mask,
    r: Option<Mask>,
)
    requires
        call_ensures(gossip::apply_mask_upsert, (local, tombstone, remote), r),
    ensures
        r is Some <==> {
            &&& local matches Some(l) ==> remote.updated_at > l.updated_at || (remote.updated_at
                == l.updated_at && order::lex_lt(remote.origin_node@, l.origin_node@))
            &&& tombstone matches Some(t) ==> remote.updated_at > t.deleted_at || (
            remote.updated_at == t.deleted_at && order::lex_lt(remote.origin_node@, t.origin_node@))
        },
{
}

/// A delete takes a mask, and leaves its trace in place of an earlier one, if it is
/// later, or as late and of a node whose name comes first; the trace holds when and
/// where the mask was deleted.
pub proof fn newer_delete_takes_the_mask(
    local: Option<&Mask>,
    tombstone: Option<&Tombstone>,
    updated_at: i64,
    origin_node: &str,
    r: MaskDeletion,
)
    requires
        call_ensures(gossip::apply_mask_delete, (local, tombstone, updated_at, origin_node), r),
    ensures
        r.removes_row <==> (local matches Some(l) && (updated_at > l.updated_at || (updated_at
            == l.updated_at && order::lex_lt(origin_node@, l.origin_node@)))),
        r.tombstone is Some <==> (tombstone matches Some(t) ==> updated_at > t.deleted_at || (
        updated_at == t.deleted_at && order::lex_lt(origin_node@, t.origin_node@))),
        r.tombstone matches Some(t) ==> t.deleted_at == updated_at && t.origin_node@
            == origin_node@,
{
}

} // verus!
