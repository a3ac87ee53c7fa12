//! What each request changes, field by field, and what follows from it.

use crate::api::admin;
use crate::api::admin::{ReadinessProbes, ReadyBody};
use crate::api::auth;
use crate::api::auth::{ActorClaim, VerifiedActor};
use crate::api::channels;
use crate::api::channels::{SettingsBody, UserFlagsBody};
use crate::api::error::ApiError;
use crate::api::login;
use crate::api::login::Login;
use crate::api::masks;
use crate::api::masks::CreateChannelMaskBody;
use crate::api::record;
use crate::api::record::{AuditNote, Broadcast, Mutation};
use crate::api::users;
use crate::api::users::UserPatch;
use crate::crypto;
use crate::model::audit::{AuditEntry, AuditSource, Details};
use crate::model::auth_token::AuthToken;
use crate::model::channel::{Channel, ChannelSettings, ChannelUserFlags, NewChannel};
use crate::model::flags;
use crate::model::flags::{DiffState, FlagSet};
use crate::model::ids::{ChannelId, MaskId};
use crate::model::mask::{Mask, NewMask};
use crate::model::user::{NewUser, User};
use crate::proto::sync::{Delete, DeleteKind, UpsertKind};
use crate::store::row_laws;
use crate::store::rows::StoredToken;
use crate::text;
use vstd::prelude::*;

verus! {

// ----- flags --------------------------------------------------------------------

/// A flag diff is read from left to right. A sign decides for the letters behind it, a
/// letter is given or taken and no other letter changes, blanks do nothing, and the
/// first character that is none of these is what is wrong with the diff.
pub proof fn diff_is_read_from_left_to_right(bits: u64, d: Seq<char>, c: char, other: char)
    ensures
        ({
            let s = flags::diff_applied(bits, d);
            let t = flags::diff_applied(bits, d.push(c));
            let letter = 'a' <= c <= 'z' || 'A' <= c <= 'Z';
            &&& s.bad is Some ==> t.bad == s.bad
            &&& s.bad is None && c == '+' ==> t.adding && t.bits == s.bits && t.bad is None
            &&& s.bad is None && c == '-' ==> !t.adding && t.bits == s.bits && t.bad is None
            &&& s.bad is None && (c == ' ' || c == '\t') ==> t == s
            &&& s.bad is None && letter ==> {
                &&& t.bad is None && t.adding == s.adding
                &&& flags::holds(t.bits, c) == s.adding
                &&& other != c ==> flags::holds(t.bits, other) == flags::holds(s.bits, other)
            }
            &&& s.bad is None && !letter && c != '+' && c != '-' && c != ' ' && c != '\t' ==> t.bad
                == Some(c)
        }),
{
    assert(d.push(c).drop_last() =~= d);
    let s = flags::diff_applied(bits, d);
    if 'a' <= c <= 'z' || 'A' <= c <= 'Z' {
        flags::insert_and_remove(s.bits, c, other);
    }
}

/// An empty diff changes nothing, and letters are given until a sign says otherwise.
pub proof fn empty_diff_changes_nothing(bits: u64)
    ensures
        flags::diff_applied(bits, Seq::empty()) == (DiffState { bits, adding: true, bad: None }),
{
}

/// Flags of a request in absolute form do not depend on what was there; a diff starts
/// from what was there.
pub proof fn flags_of_a_request(base: FlagSet, diff: &str, r: Result<FlagSet, ApiError>)
    requires
        call_ensures(users::change_flags, (base, diff), r),
    ensures
        ({
            let s = flags::diff_applied(base.spec_bits(), diff@);
            &&& s.bad is None ==> (r matches Ok(f) && f.spec_bits() == s.bits)
            &&& s.bad matches Some(c) ==> r matches Err(e) && e matches ApiError::BadRequest(m)
                && m@ == flags::invalid_char_text(c)
        }),
{
    flags::set_is_its_bitmap(base, flags::diff_applied(base.spec_bits(), diff@).bits);
}

/// Flags in absolute form are a diff of no flags.
pub proof fn absolute_flags_start_from_none(diff: &str, r: Result<FlagSet, ApiError>)
    requires
        call_ensures(users::read_flags, (diff,), r),
    ensures
        ({
            let s = flags::diff_applied(0, diff@);
            &&& s.bad is None ==> (r matches Ok(f) && f.spec_bits() == s.bits)
            &&& s.bad matches Some(c) ==> r matches Err(e) && e matches ApiError::BadRequest(m)
                && m@ == flags::invalid_char_text(c)
        }),
{
    flags::set_is_its_bitmap(FlagSet::of_bits(0), flags::diff_applied(0, diff@).bits);
}

// ----- settings -----------------------------------------------------------------

/// Each setting that a change gives is the setting of the result, and each that it
/// leaves out stays. A channel without settings starts from ones that manage nothing.
pub proof fn given_settings_are_set(
    existing: Option<ChannelSettings>,
    id: ChannelId,
    body: SettingsBody,
    n: ChannelSettings,
)
    requires
        call_ensures(channels::put_channel_settings, (existing, id, body), Ok(n)),
    ensures
        body.flags matches Some(f) ==> n.flags.spec_bits() == flags::diff_applied(0, f@).bits,
        body.mode_pls matches Some(m) ==> n.mode_pls@ == m@,
        body.mode_mns matches Some(m) ==> n.mode_mns@ == m@,
        body.limit_prot matches Some(l) ==> n.limit_prot == l,
        body.key_prot matches Some(k) ==> row_laws::same_optional(n.key_prot, k),
        body.topic_saved matches Some(t) ==> row_laws::same_optional(n.topic_saved, t),
        existing matches Some(s) ==> {
            &&& n.channel_id == s.channel_id
            &&& body.flags is None ==> n.flags == s.flags
            &&& body.mode_pls is None ==> n.mode_pls@ == s.mode_pls@
            &&& body.mode_mns is None ==> n.mode_mns@ == s.mode_mns@
            &&& body.limit_prot is None ==> n.limit_prot == s.limit_prot
            &&& body.key_prot is None ==> row_laws::same_optional(n.key_prot, s.key_prot)
            &&& body.topic_saved is None ==> row_laws::same_optional(n.topic_saved, s.topic_saved)
        },
        existing is None ==> {
            &&& n.channel_id == id
            &&& body.flags is None ==> n.flags.spec_bits() == 0
            &&& body.mode_pls is None ==> n.mode_pls@.len() == 0
            &&& body.mode_mns is None ==> n.mode_mns@.len() == 0
            &&& body.limit_prot is None ==> n.limit_prot is None
            &&& body.key_prot is None ==> n.key_prot is None
            &&& body.topic_saved is None ==> n.topic_saved is None
        },
{
    let bits = match body.flags {
        Some(f) => flags::diff_applied(0, f@).bits,
        None => 0,
    };
    flags::set_is_its_bitmap(n.flags, bits);
    flags::set_is_its_bitmap(n.flags, 0);
    assert(text::opt_view(n.key_prot) == n@.key_prot);
    assert(text::opt_view(n.topic_saved) == n@.topic_saved);
}

/// Settings are refused only for flags that cannot be read.
pub proof fn settings_are_refused_for_flags(
    existing: Option<ChannelSettings>,
    id: ChannelId,
    body: SettingsBody,
    r: Result<ChannelSettings, ApiError>,
)
    requires
        call_ensures(channels::put_channel_settings, (existing, id, body), r),
    ensures
        r is Err <==> (body.flags matches Some(f) && flags::diff_applied(0, f@).bad is Some),
        r matches Err(e) ==> e matches ApiError::BadRequest(m) && m@ == flags::invalid_char_text(
            flags::diff_applied(0, body.flags->0@).bad->0,
        ),
{
}

// ----- users --------------------------------------------------------------------

/// Each field that a patch gives is the field of the result, and each that it leaves out
/// stays.
pub proof fn given_fields_are_set(user: User, patch: UserPatch, n: NewUser)
    requires
        call_ensures(users::patch_user, (user, patch), Ok(n)),
    ensures
        patch.handle matches Some(h) ==> n.handle@ == h@,
        patch.handle is None ==> n.handle@ == user.handle@,
        patch.password_hash matches Some(h) ==> row_laws::same_optional(n.password_hash, h),
        patch.password_hash is None ==> row_laws::same_optional(n.password_hash, user.password_hash),
        patch.is_bot matches Some(b) ==> n.is_bot == b,
        patch.is_bot is None ==> n.is_bot == user.is_bot,
        patch.comment matches Some(c) ==> row_laws::same_optional(n.comment, c),
        patch.comment is None ==> row_laws::same_optional(n.comment, user.comment),
        patch.hosts matches Some(h) ==> row_laws::same_texts(n.hosts@, h@),
        patch.hosts is None ==> row_laws::same_texts(n.hosts@, user.hosts@),
        patch.global_flags matches Some(f) ==> n.global_flags.spec_bits() == flags::diff_applied(
            0,
            f@,
        ).bits,
        patch.flags_diff matches Some(d) ==> n.global_flags.spec_bits() == flags::diff_applied(
            user.global_flags.spec_bits(),
            d@,
        ).bits,
        patch.global_flags is None && patch.flags_diff is None ==> n.global_flags
            == user.global_flags,
{
    assert(n@.password_hash == text::opt_view(n.password_hash));
    assert(n@.comment == text::opt_view(n.comment));
    let want = match patch.hosts {
        Some(h) => h@,
        None => user.hosts@,
    };
    lemma_same_texts(n.hosts@, want);
    if let Some(f) = patch.global_flags {
        flags::set_is_its_bitmap(n.global_flags, flags::diff_applied(0, f@).bits);
    }
    if let Some(d) = patch.flags_diff {
        flags::set_is_its_bitmap(
            n.global_flags,
            flags::diff_applied(user.global_flags.spec_bits(), d@).bits,
        );
    }
}

proof fn lemma_same_texts(a: Seq<String>, b: Seq<String>)
    requires
        text::views(a) == text::views(b),
    ensures
        row_laws::same_texts(a, b),
{
    assert(text::views(a).len() == a.len());
    assert(text::views(b).len() == b.len());
    assert forall|i: int| 0 <= i < a.len() implies #[trigger] a[i]@ == b[i]@ by {
        assert(text::views(a)[i] == text::views(b)[i]);
    }
}

/// A patch is refused if it gives flags both ways, or flags that cannot be read, and for
/// no other reason.
pub proof fn patches_are_refused_for_flags(
    user: User,
    patch: UserPatch,
    r: Result<NewUser, ApiError>,
)
    requires
        call_ensures(users::patch_user, (user, patch), r),
    ensures
        ({
            let both = patch.global_flags is Some && patch.flags_diff is Some;
            let bad = match patch.global_flags {
                Some(f) => flags::diff_applied(0, f@).bad,
                None => match patch.flags_diff {
                    Some(d) => flags::diff_applied(user.global_flags.spec_bits(), d@).bad,
                    None => None,
                },
            };
            &&& r is Err <==> both || bad is Some
            &&& both ==> (r matches Err(ApiError::BadRequest(m)) && m@
                == "global_flags and flags_diff are mutually exclusive"@)
            &&& !both && bad is Some ==> (r matches Err(ApiError::BadRequest(m)) && m@
                == flags::invalid_char_text(bad->0))
        }),
{
}

/// A password is set or cleared, and nothing else of the user changes. A user without
/// one has none to clear.
pub proof fn only_the_password_changes(user: User, encoded: String, n: NewUser)
    requires
        call_ensures(users::with_password_hash, (user, encoded), n),
    ensures
        n.password_hash matches Some(h) && h@ == encoded@,
        n.handle@ == user.handle@,
        n.is_bot == user.is_bot,
        n.global_flags == user.global_flags,
        row_laws::same_optional(n.comment, user.comment),
        row_laws::same_texts(n.hosts@, user.hosts@),
{
    assert(n@.password_hash == text::opt_view(n.password_hash));
    assert(n@.comment == text::opt_view(n.comment));
    lemma_same_texts(n.hosts@, user.hosts@);
}

/// A cleared password is gone, and nothing else of the user changes; without one the
/// request fails.
pub proof fn only_the_password_is_cleared(user: User, r: Result<NewUser, ApiError>)
    requires
        call_ensures(users::delete_user_password, (user,), r),
    ensures
        user.password_hash is None ==> r == Err::<NewUser, ApiError>(ApiError::NotFound),
        user.password_hash is Some ==> (r matches Ok(n) && n.password_hash is None && n.handle@
            == user.handle@ && n.is_bot == user.is_bot && n.global_flags == user.global_flags
            && row_laws::same_optional(n.comment, user.comment) && row_laws::same_texts(n.hosts@, user.hosts@)),
{
    if let Ok(n) = r {
        assert(n@.password_hash == text::opt_view(n.password_hash));
        assert(n@.comment == text::opt_view(n.comment));
        lemma_same_texts(n.hosts@, user.hosts@);
    }
}

/// A handle, a mask or a password that is empty is refused; so is a channel whose name
/// starts with neither `#` nor `&`.
pub proof fn empty_names_are_refused(
    user: &NewUser,
    mask: &CreateChannelMaskBody,
    channel: &NewChannel,
    password: &str,
    u: Result<(), ApiError>,
    m: Result<(), ApiError>,
    c: Result<(), ApiError>,
    p: Result<(), ApiError>,
)
    requires
        call_ensures(users::create_user, (user,), u),
        call_ensures(masks::check_mask, (mask,), m),
        call_ensures(channels::create_channel, (channel,), c),
        call_ensures(users::check_password, (password,), p),
    ensures
        u is Err <==> text::trimmed(user.handle@).len() == 0,
        m is Err <==> text::trimmed(mask.mask@).len() == 0,
        c is Ok <==> channel.name@.len() > 0 && (channel.name@[0] == '#' || channel.name@[0] == '&'),
        p is Err <==> password@.len() == 0,
        u matches Err(e) ==> e matches ApiError::BadRequest(t) && t@ == "handle must not be empty"@,
        m matches Err(e) ==> e matches ApiError::BadRequest(t) && t@ == "mask must not be empty"@,
        c matches Err(e) ==> e matches ApiError::BadRequest(t) && t@
            == "channel name must start with '#' or '&'"@,
        p matches Err(e) ==> e matches ApiError::BadRequest(t) && t@
            == "password must not be empty"@,
{
}

// ----- channel flags ------------------------------------------------------------

/// Exactly one of the two forms of flags has to be given.
pub proof fn one_form_of_flags_is_given(body: &UserFlagsBody, r: Result<(), ApiError>)
    requires
        call_ensures(channels::check_user_flags, (body,), r),
    ensures
        body.flags is Some && body.flags_diff is None ==> r is Ok,
        body.flags is None && body.flags_diff is Some ==> r is Ok,
        body.flags is Some && body.flags_diff is Some ==> r is Err,
        body.flags is None && body.flags_diff is None ==> r is Err,
{
}

/// A user's flags in a channel become those given, or what the diff makes of those there
/// were; without a row there were none.
pub proof fn channel_flags_are_set(
    existing: Option<&ChannelUserFlags>,
    body: &UserFlagsBody,
    f: FlagSet,
)
    requires
        call_ensures(channels::put_channel_user_flags, (existing, body), Ok(f)),
    ensures
        body.flags matches Some(a) ==> f.spec_bits() == flags::diff_applied(0, a@).bits,
        body.flags is None && body.flags_diff is Some ==> f.spec_bits() == flags::diff_applied(
            match existing {
                Some(row) => row.flags.spec_bits(),
                None => 0,
            },
            body.flags_diff->0@,
        ).bits,
        body.flags is None && body.flags_diff is None && existing is Some ==> f
            == existing->0.flags,
{
    flags::set_is_its_bitmap(f, 0);
    if let Some(a) = body.flags {
        flags::set_is_its_bitmap(f, flags::diff_applied(0, a@).bits);
    } else if let Some(d) = body.flags_diff {
        let base = match existing {
            Some(row) => row.flags.spec_bits(),
            None => 0,
        };
        flags::set_is_its_bitmap(f, flags::diff_applied(base, d@).bits);
    }
}

/// A change of a user's flags in a channel is refused only for flags that cannot be
/// read.
pub proof fn channel_flags_are_refused(
    existing: Option<&ChannelUserFlags>,
    body: &UserFlagsBody,
    r: Result<FlagSet, ApiError>,
)
    requires
        call_ensures(channels::put_channel_user_flags, (existing, body), r),
    ensures
        ({
            let base: u64 = match existing {
                Some(row) => row.flags.spec_bits(),
                None => 0,
            };
            let bad = match body.flags {
                Some(a) => flags::diff_applied(0, a@).bad,
                None => match body.flags_diff {
                    Some(d) => flags::diff_applied(base, d@).bad,
                    None => None,
                },
            };
            r is Err <==> bad is Some
        }),
{
    flags::set_is_its_bitmap(FlagSet::of_bits(0), 0);
}

// ----- masks --------------------------------------------------------------------

/// A mask is written as the request gives it, for the channel of the request. Unless the
/// request says who set it, the caller did, or else the node.
pub proof fn mask_is_as_requested(
    body: CreateChannelMaskBody,
    id: ChannelId,
    claim: &ActorClaim,
    node: &str,
    n: NewMask,
)
    requires
        call_ensures(masks::create_channel_mask, (body, id, claim, node), n),
    ensures
        n.kind == body.kind,
        n.channel_id == Some(id),
        n.mask@ == body.mask@,
        row_laws::same_optional(n.reason, body.reason),
        n.expires_at == body.expires_at,
        n.sticky == body.sticky,
        n.set_by is Some,
        body.set_by matches Some(s) ==> n.set_by->0@ == s@,
        body.set_by is None && claim.0 is Some ==> n.set_by->0@ == claim.0->0@,
        body.set_by is None && claim.0 is None ==> n.set_by->0@ == node@,
{
    assert(n@.reason == text::opt_view(n.reason));
    assert(n@.set_by == text::opt_view(n.set_by));
}

/// A request gets as many audit entries as it asks for, but at most a thousand.
pub proof fn audit_entries_are_capped(asked: usize, n: usize)
    requires
        call_ensures(masks::audit_limit, (asked,), n),
    ensures
        n <= asked && n <= 1000,
        n == asked || n == 1000,
{
}

// ----- what follows -------------------------------------------------------------

/// A note with one named text.
pub open spec fn says_text(d: Details, key: Seq<char>, value: Seq<char>) -> bool {
    d matches Details::Fields(v) && v@.len() == 1 && v@[0].0@ == key && (v@[0].1
        matches crate::model::audit::DetailValue::Text(t) && t@ == value)
}

/// Whether a note is about an action and a target.
pub open spec fn is_about(n: AuditNote, action: Seq<char>, target: Seq<char>) -> bool {
    n.action@ == action && (n.target matches Some(t) && t@ == target)
}

proof fn lemma_target(n: AuditNote)
    ensures
        n@.target == text::opt_view(n.target),
{
}

/// Every change of a user is answered, recorded under the user's handle, and told to the
/// peers with the row as it is now.
pub proof fn user_changes_are_told(
    user: &User,
    created: Mutation,
    updated: Mutation,
    set: Mutation,
    cleared: Mutation,
)
    requires
        call_ensures(users::user_created, (user,), created),
        call_ensures(users::user_updated, (user,), updated),
        call_ensures(users::password_set, (user,), set),
        call_ensures(users::password_cleared, (user,), cleared),
    ensures
        created.status == 201 && updated.status == 200 && set.status == 204 && cleared.status
            == 204,
        is_about(created.note, "user.upsert"@, user.handle@),
        is_about(updated.note, "user.update"@, user.handle@),
        is_about(set.note, "user.password.set"@, user.handle@),
        is_about(cleared.note, "user.password.clear"@, user.handle@),
        created.broadcast matches Broadcast::Upsert(UpsertKind::User(u)) && u@ == user@,
        updated.broadcast matches Broadcast::Upsert(UpsertKind::User(u)) && u@ == user@,
        set.broadcast matches Broadcast::Upsert(UpsertKind::User(u)) && u@ == user@,
        cleared.broadcast matches Broadcast::Upsert(UpsertKind::User(u)) && u@ == user@,
{
    lemma_target(created.note);
    lemma_target(updated.note);
    lemma_target(set.note);
    lemma_target(cleared.note);
}

/// A channel, its settings, a user's flags in it and a mask on it: each change is
/// answered, recorded under what it is about, and told to the peers with the row as it
/// is now.
pub proof fn channel_changes_are_told(
    chan: &Channel,
    user: &User,
    settings: &ChannelSettings,
    row: &ChannelUserFlags,
    mask: &Mask,
    made: Mutation,
    set: Mutation,
    flagged: Mutation,
    masked: Mutation,
)
    requires
        call_ensures(channels::channel_created, (chan,), made),
        call_ensures(channels::settings_written, (chan, settings), set),
        call_ensures(channels::user_flags_written, (chan, user, row), flagged),
        call_ensures(masks::mask_created, (chan, mask), masked),
    ensures
        made.status == 201 && set.status == 200 && flagged.status == 200 && masked.status == 201,
        is_about(made.note, "channel.upsert"@, chan.name@),
        is_about(set.note, "channel.settings.update"@, chan.name@),
        is_about(
            flagged.note,
            "channel.user_flags.update"@,
            chan.name@ + ":"@ + user.handle@,
        ),
        is_about(masked.note, "mask.add"@, chan.name@ + ":"@ + mask.mask@),
        made.broadcast matches Broadcast::Upsert(UpsertKind::Channel(c)) && c@ == chan@,
        set.broadcast matches Broadcast::Upsert(UpsertKind::ChannelSettings(s)) && s@ == settings@,
        flagged.broadcast matches Broadcast::Upsert(UpsertKind::ChannelUserFlags(f)) && f@ == row@,
        masked.broadcast matches Broadcast::Upsert(UpsertKind::Mask(m)) && m@ == mask@,
{
    lemma_target(made.note);
    lemma_target(set.note);
    lemma_target(flagged.note);
    lemma_target(masked.note);
}

/// A deletion that took place is answered, recorded and told to the peers by the
/// identifier of what went; one that found nothing is refused.
pub proof fn deletions_are_told(
    user: &User,
    chan: &Channel,
    mask: &Mask,
    id: &str,
    deleted: bool,
    u: Result<Mutation, ApiError>,
    c: Result<Mutation, ApiError>,
    f: Result<Mutation, ApiError>,
    m: Result<Mutation, ApiError>,
)
    requires
        call_ensures(users::delete_user, (user, deleted), u),
        call_ensures(channels::delete_channel, (chan, deleted), c),
        call_ensures(channels::delete_channel_user_flags, (chan, user, deleted), f),
        call_ensures(masks::delete_mask, (mask, id, deleted), m),
    ensures
        !deleted ==> u == Err::<Mutation, ApiError>(ApiError::NotFound) && c == Err::<
            Mutation,
            ApiError,
        >(ApiError::NotFound) && f == Err::<Mutation, ApiError>(ApiError::NotFound) && m == Err::<
            Mutation,
            ApiError,
        >(ApiError::NotFound),
        deleted ==> (u matches Ok(x) && x.status == 204 && is_about(
            x.note,
            "user.delete"@,
            user.handle@,
        ) && x.broadcast == Broadcast::Delete(DeleteKind::User { id: user.id })),
        deleted ==> (c matches Ok(x) && x.status == 204 && is_about(
            x.note,
            "channel.delete"@,
            chan.name@,
        ) && x.broadcast == Broadcast::Delete(DeleteKind::Channel { id: chan.id })),
        deleted ==> (f matches Ok(x) && x.status == 204 && is_about(
            x.note,
            "channel.user_flags.delete"@,
            chan.name@ + ":"@ + user.handle@,
        ) && x.broadcast == Broadcast::Delete(
            DeleteKind::ChannelUserFlags { channel_id: chan.id, user_id: user.id },
        )),
        deleted ==> (m matches Ok(x) && x.status == 204 && is_about(
            x.note,
            "mask.delete"@,
            mask.mask@,
        ) && x.broadcast == Broadcast::Delete(DeleteKind::Mask { id: mask.id })),
{
    if deleted {
        lemma_target(u->Ok_0.note);
        lemma_target(c->Ok_0.note);
        lemma_target(f->Ok_0.note);
        lemma_target(m->Ok_0.note);
    }
}

/// An audit entry says when, by whom, what and to what: the caller that is known, or
/// else the node.
pub proof fn audit_entry_says_what_was_done(
    note: AuditNote,
    claim: &ActorClaim,
    node: &str,
    ts: i64,
    e: AuditEntry,
)
    requires
        call_ensures(record::audit_at, (note, claim, node, ts), e),
    ensures
        e.ts == ts,
        claim.0 matches Some(a) ==> e.actor@ == a@,
        claim.0 is None ==> e.actor@ == node@,
        e.action@ == note.action@,
        row_laws::same_optional(e.target, note.target),
        e.details@ == note.details@,
        e.source == AuditSource::Api,
{
    lemma_target(note);
}

/// A broadcast deletion holds what went, when and on which node.
pub proof fn deletion_is_stamped(kind: DeleteKind, node: &str, now: i64, d: Delete)
    requires
        call_ensures(record::deletion_at, (kind, node, now), d),
    ensures
        d.kind == kind,
        d.updated_at == now,
        d.origin_node@ == node@,
{
}

// ----- who is calling -----------------------------------------------------------

/// A proved name counts before a claimed one, and an empty claim is none.
pub proof fn proof_counts_before_claim(
    verified: Option<&VerifiedActor>,
    header: Option<&str>,
    c: ActorClaim,
)
    requires
        call_ensures(ActorClaim::from_request, (verified, header), c),
    ensures
        verified matches Some(v) ==> c.0 matches Some(a) && a@ == v.0@,
        verified is None && header is Some && header->0@.len() > 0 ==> (c.0 matches Some(a) && a@
            == header->0@),
        verified is None && (header is None || header->0@.len() == 0) ==> c.0 is None,
{
    assert(c@ == text::opt_view(c.0));
}

/// A token stands for its user until it expires, and an unknown token for nobody.
pub proof fn token_stands_for_its_user(
    row: Option<&StoredToken>,
    now: i64,
    r: Result<VerifiedActor, ApiError>,
)
    requires
        call_ensures(auth::accept_token, (row, now), r),
    ensures
        row is None ==> r == Err::<VerifiedActor, ApiError>(ApiError::Unauthorized),
        row matches Some(t) ==> {
            &&& now >= t.expires_at ==> r == Err::<VerifiedActor, ApiError>(ApiError::Unauthorized)
            &&& now < t.expires_at ==> (r matches Ok(a) && a.0@ == t.handle@)
        },
{
}

/// Only a user with a password gets in, and only with that password; every refusal is
/// the same.
pub proof fn only_the_right_password_gets_in(
    user: Option<&User>,
    given: &str,
    r: Result<(), ApiError>,
)
    requires
        call_ensures(login::check_login, (user, given), r),
    ensures
        r is Ok <==> (user matches Some(u) && u.password_hash is Some && crypto::accepts(
            u.password_hash->0@,
            given@,
        )),
        r is Err ==> r == Err::<(), ApiError>(ApiError::Unauthorized),
{
}

/// A login hands out the token whose hash is stored, for the user who logged in, for an
/// hour; it is recorded.
pub proof fn login_stores_the_hash(
    token: &AuthToken,
    handle: &str,
    now: i64,
    node: &str,
    l: Login,
)
    requires
        call_ensures(login::issue, (token, handle, now, node), l),
        now <= i64::MAX - 3_600_000,
    ensures
        l.row.hash.0@ == crypto::sha256(token@),
        crate::encoding::decodes_to(text::trimmed(l.token@), token@),
        l.row.handle@ == handle@,
        l.row.created_at == now,
        l.row.expires_at == now + 3_600_000,
        l.expires_at == now + 3_600_000,
        l.row.origin_node@ == node@,
        is_about(l.note, "auth.login"@, handle@),
{
    lemma_target(l.note);
}

// ----- answers ------------------------------------------------------------------

/// A node is ready when its IRC session, a peer and its store are, and the answer says
/// which of them are.
pub proof fn ready_when_all_is_up(p: &ReadinessProbes, r: (u16, ReadyBody))
    requires
        call_ensures(admin::readyz, (p,), r),
    ensures
        r.0 == 200 || r.0 == 503,
        r.0 == 200 <==> p@.irc_connected && p@.peers_up && p@.store_open,
        r.1.ok == (r.0 == 200),
        r.1.irc_connected == p@.irc_connected,
        r.1.peers_up == p@.peers_up,
        r.1.store_open == p@.store_open,
{
}

/// Each probe is what it was last set to, and setting one leaves the others alone.
pub proof fn probes_are_independent(
    p: &mut ReadinessProbes,
    q: &mut ReadinessProbes,
    s: &mut ReadinessProbes,
    v: bool,
)
    requires
        call_ensures(ReadinessProbes::set_irc_connected, (p, v), ()),
        call_ensures(ReadinessProbes::set_peers_up, (q, v), ()),
        call_ensures(ReadinessProbes::set_store_open, (s, v), ()),
    ensures
        final(p)@.irc_connected == v && final(p)@.peers_up == old(p)@.peers_up
            && final(p)@.store_open == old(p)@.store_open,
        final(q)@.peers_up == v && final(q)@.irc_connected == old(q)@.irc_connected
            && final(q)@.store_open == old(q)@.store_open,
        final(s)@.store_open == v && final(s)@.irc_connected == old(s)@.irc_connected
            && final(s)@.peers_up == old(s)@.peers_up,
{
}

/// A refusal is answered with the status that fits it, and with the reason, unless the
/// store failed.
pub proof fn refusals_have_their_status(e: &ApiError, r: (u16, String))
    requires
        call_ensures(ApiError::into_response, (e,), r),
    ensures
        e matches ApiError::NotFound ==> r.0 == 404 && r.1@ == "not found"@,
        e matches ApiError::BadRequest(m) ==> r.0 == 400 && r.1@ == "bad request: "@ + m@,
        e matches ApiError::Unauthorized ==> r.0 == 401 && r.1@ == "unauthorized"@,
        e matches ApiError::Store(_) ==> r.0 == 500 && r.1@ == "internal store error"@,
{
}

/// The identifier of a mask in a request is read as what it spells, or refused with the
/// reason.
pub proof fn mask_id_is_read(id: &str, r: Result<MaskId, ApiError>)
    requires
        call_ensures(masks::parse_mask_id, (id,), r),
    ensures
        r matches Ok(m) ==> crate::model::ids::ulid_parsed(id@) == Ok::<u128, Seq<char>>(m.0),
        r matches Err(e) ==> e matches ApiError::BadRequest(t)
            && crate::model::ids::ulid_parsed(id@) is Err && t@ == "invalid mask id: "@
            + crate::model::ids::ulid_parsed(id@)->Err_0,
{
}

} // verus!
