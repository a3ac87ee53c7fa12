//! What is written, column by column, and which mask or host is found.

use crate::bytes;
use crate::model::audit;
use crate::model::audit::{AuditEntry, AuditSource, Details};
use crate::model::channel::{Channel, ChannelSettings, ChannelUserFlags, NewChannel};
use crate::model::flags;
use crate::model::flags::FlagSet;
use crate::model::ids::{ChannelId, MaskId, UserId};
use crate::model::mask::{Mask, MaskKind, NewMask};
use crate::model::user::{NewUser, User};
use crate::store::channels;
use crate::store::glob;
use crate::store::masks;
use crate::store::row_laws;
use crate::store::rows;
use crate::store::rows::{
    AuditRow, ChannelRow, MaskRow, SettingsRow, StoredToken, UserFlagsRow, UserRow,
};
use crate::store::users;
use crate::text;
use crate::views;
use vstd::prelude::*;

verus! {

// ----- writing ------------------------------------------------------------------

/// A user is written as given, stamped with the time and the node of the write. A user
/// that was there keeps its identifier, when it was made and when it was last seen; a
/// new one gets the fresh identifier, is made now, and was never seen.
pub proof fn user_is_written_as_given(
    existing: Option<(UserId, i64, Option<i64>)>,
    new: &NewUser,
    fresh: UserId,
    now: i64,
    origin: &str,
    u: User,
)
    requires
        call_ensures(users::upsert_row, (existing, new, fresh, now, origin), u),
    ensures
        u.handle@ == new.handle@,
        row_laws::same_optional(u.password_hash, new.password_hash),
        u.is_bot == new.is_bot,
        u.global_flags == new.global_flags,
        row_laws::same_optional(u.comment, new.comment),
        row_laws::same_texts(u.hosts@, new.hosts@),
        u.updated_at == now,
        u.origin_node@ == origin@,
        existing matches Some(e) ==> u.id == e.0 && u.created_at == e.1 && u.last_seen_at == e.2,
        existing is None ==> u.id == fresh && u.created_at == now && u.last_seen_at is None,
{
    assert(u@.password_hash == text::opt_view(u.password_hash));
    assert(u@.comment == text::opt_view(u.comment));
    lemma_same_texts(u.hosts@, new.hosts@);
}

proof fn lemma_same_texts(a: Seq<String>, b: Seq<String>)
    requires
        text::views(a) == text::views(b),
    ensures
        row_laws::same_texts(a, b),
{
    assert(text::views(a).len() == a.len());
    assert(text::views(b).len() == b.len());
    assert forall|i: int| 0 <= i < a.len() implies #[trigger] a[i]@ == b[i]@ by {
        assert(text::views(a)[i] == text::views(b)[i]);
    }
}

/// A channel is written under its name, stamped with the time and the node of the write.
/// One that was there keeps its identifier and when it was made.
pub proof fn channel_is_written_as_given(
    existing: Option<(ChannelId, i64)>,
    new: &NewChannel,
    fresh: ChannelId,
    now: i64,
    origin: &str,
    c: Channel,
)
    requires
        call_ensures(channels::upsert_row, (existing, new, fresh, now, origin), c),
    ensures
        c.name@ == new.name@,
        c.updated_at == now,
        c.origin_node@ == origin@,
        existing matches Some(e) ==> c.id == e.0 && c.created_at == e.1,
        existing is None ==> c.id == fresh && c.created_at == now,
{
}

/// Settings are written as they are, stamped with the time and the node of the write.
pub proof fn settings_are_written_as_given(
    s: &ChannelSettings,
    now: i64,
    origin: &str,
    w: ChannelSettings,
)
    requires
        call_ensures(channels::stamp_settings, (s, now, origin), w),
    ensures
        w.channel_id == s.channel_id,
        w.flags == s.flags,
        w.mode_pls@ == s.mode_pls@,
        w.mode_mns@ == s.mode_mns@,
        w.limit_prot == s.limit_prot,
        row_laws::same_optional(w.key_prot, s.key_prot),
        row_laws::same_optional(w.topic_saved, s.topic_saved),
        w.updated_at == now,
        w.origin_node@ == origin@,
{
    assert(w@.key_prot == text::opt_view(w.key_prot));
    assert(w@.topic_saved == text::opt_view(w.topic_saved));
}

/// A user's flags in a channel are written as they are, stamped with the time and the
/// node of the write.
pub proof fn flags_are_written_as_given(
    channel: ChannelId,
    user: UserId,
    f: FlagSet,
    now: i64,
    origin: &str,
    w: ChannelUserFlags,
)
    requires
        call_ensures(channels::stamp_user_flags, (channel, user, f, now, origin), w),
    ensures
        w.channel_id == channel,
        w.user_id == user,
        w.flags == f,
        w.updated_at == now,
        w.origin_node@ == origin@,
{
}

/// A mask is written as given, set and stamped with the time and the node of the write.
pub proof fn mask_is_written_as_given(new: &NewMask, id: MaskId, now: i64, origin: &str, m: Mask)
    requires
        call_ensures(masks::insert_row, (new, id, now, origin), m),
    ensures
        m.id == id,
        m.kind == new.kind,
        m.channel_id == new.channel_id,
        m.mask@ == new.mask@,
        row_laws::same_optional(m.reason, new.reason),
        row_laws::same_optional(m.set_by, new.set_by),
        m.set_at == now,
        m.expires_at == new.expires_at,
        m.sticky == new.sticky,
        m.updated_at == now,
        m.origin_node@ == origin@,
{
    assert(m@.reason == text::opt_view(m.reason));
    assert(m@.set_by == text::opt_view(m.set_by));
}

// ----- columns ------------------------------------------------------------------

/// The columns of a user hold the fields of the same name.
pub proof fn user_columns_hold_their_fields(u: &User, r: UserRow)
    requires
        call_ensures(rows::user_row, (u,), r),
    ensures
        r.id@ == bytes::be_bytes(u.id.0 as nat, 16),
        r.handle@ == u.handle@,
        row_laws::same_optional(r.password_hash, u.password_hash),
        r.is_bot == if u.is_bot { 1i64 } else { 0i64 },
        bytes::signed_bits(r.global_flags) == u.global_flags.spec_bits(),
        row_laws::same_optional(r.comment, u.comment),
        r.created_at == u.created_at,
        r.updated_at == u.updated_at,
        r.last_seen_at == u.last_seen_at,
        r.origin_node@ == u.origin_node@,
{
    lemma_flags(u.global_flags);
}

proof fn lemma_flags(f: FlagSet)
    ensures
        bytes::signed_bits(rows::flags_column(f)) == f.spec_bits(),
{
    rows::flags_survive_column(f);
    flags::set_is_its_bitmap(f, bytes::signed_bits(rows::flags_column(f)) as u64);
}

/// A user is read from the columns of the same name.
pub proof fn user_fields_come_from_their_columns(r: UserRow, hosts: Vec<String>, u: User)
    requires
        call_ensures(rows::map_user_row, (r, hosts), u),
        r.id@.len() >= 16,
    ensures
        u.id.0 as nat == bytes::be_value(r.id@.take(16)) || bytes::be_value(r.id@.take(16))
            > u128::MAX,
        u.handle@ == r.handle@,
        row_laws::same_optional(u.password_hash, r.password_hash),
        u.is_bot == (r.is_bot != 0),
        u.global_flags.spec_bits() == bytes::signed_bits(r.global_flags) as u64,
        row_laws::same_optional(u.comment, r.comment),
        row_laws::same_texts(u.hosts@, hosts@),
        u.created_at == r.created_at,
        u.updated_at == r.updated_at,
        u.last_seen_at == r.last_seen_at,
        u.origin_node@ == r.origin_node@,
{
    assert(u@.password_hash == text::opt_view(u.password_hash));
    assert(u@.comment == text::opt_view(u.comment));
    lemma_same_texts(u.hosts@, hosts@);
    flags::set_is_its_bitmap(u.global_flags, bytes::signed_bits(r.global_flags) as u64);
}

/// The columns of a channel hold the fields of the same name, and are read as such.
pub proof fn channel_columns_hold_their_fields(c: &Channel, r: ChannelRow, s: ChannelRow, d: Channel)
    requires
        call_ensures(rows::channel_row, (c,), r),
        call_ensures(rows::map_channel_row, (s,), d),
        s.id@.len() >= 16,
    ensures
        r.id@ == bytes::be_bytes(c.id.0 as nat, 16),
        r.name@ == c.name@ && d.name@ == s.name@,
        r.created_at == c.created_at && d.created_at == s.created_at,
        r.updated_at == c.updated_at && d.updated_at == s.updated_at,
        r.origin_node@ == c.origin_node@ && d.origin_node@ == s.origin_node@,
{
}

/// The columns of settings hold the fields of the same name, and are read as such.
pub proof fn settings_columns_hold_their_fields(
    c: &ChannelSettings,
    r: SettingsRow,
    s: SettingsRow,
    d: ChannelSettings,
)
    requires
        call_ensures(rows::settings_row, (c,), r),
        call_ensures(rows::map_settings_row, (s,), d),
        s.channel_id@.len() >= 16,
    ensures
        r.channel_id@ == bytes::be_bytes(c.channel_id.0 as nat, 16),
        bytes::signed_bits(r.flags) == c.flags.spec_bits(),
        d.flags.spec_bits() == bytes::signed_bits(s.flags) as u64,
        r.mode_pls@ == c.mode_pls@ && d.mode_pls@ == s.mode_pls@,
        r.mode_mns@ == c.mode_mns@ && d.mode_mns@ == s.mode_mns@,
        r.limit_prot == c.limit_prot && d.limit_prot == s.limit_prot,
        row_laws::same_optional(r.key_prot, c.key_prot) && row_laws::same_optional(d.key_prot, s.key_prot),
        row_laws::same_optional(r.topic_saved, c.topic_saved) && row_laws::same_optional(d.topic_saved, s.topic_saved),
        r.updated_at == c.updated_at && d.updated_at == s.updated_at,
        r.origin_node@ == c.origin_node@ && d.origin_node@ == s.origin_node@,
{
    lemma_flags(c.flags);
    flags::set_is_its_bitmap(d.flags, bytes::signed_bits(s.flags) as u64);
    assert(d@.key_prot == text::opt_view(d.key_prot));
    assert(d@.topic_saved == text::opt_view(d.topic_saved));
}

/// The columns of a user's flags in a channel hold the fields of the same name, and are
/// read as such.
pub proof fn flag_columns_hold_their_fields(
    c: &ChannelUserFlags,
    r: UserFlagsRow,
    s: UserFlagsRow,
    d: ChannelUserFlags,
)
    requires
        call_ensures(rows::user_flags_row, (c,), r),
        call_ensures(rows::map_user_flags_row, (s,), d),
        s.channel_id@.len() >= 16,
        s.user_id@.len() >= 16,
    ensures
        r.channel_id@ == bytes::be_bytes(c.channel_id.0 as nat, 16),
        r.user_id@ == bytes::be_bytes(c.user_id.0 as nat, 16),
        bytes::signed_bits(r.flags) == c.flags.spec_bits(),
        d.flags.spec_bits() == bytes::signed_bits(s.flags) as u64,
        r.updated_at == c.updated_at && d.updated_at == s.updated_at,
        r.origin_node@ == c.origin_node@ && d.origin_node@ == s.origin_node@,
{
    lemma_flags(c.flags);
    flags::set_is_its_bitmap(d.flags, bytes::signed_bits(s.flags) as u64);
}

/// The columns of a mask hold the fields of the same name, and are read as such. A ban
/// is number one, an exempt two, an invite three.
pub proof fn mask_columns_hold_their_fields(c: &Mask, r: MaskRow, s: MaskRow, d: Mask)
    requires
        call_ensures(rows::mask_row, (c,), r),
        call_ensures(rows::map_mask_row, (s,), d),
        rows::readable_mask(s),
    ensures
        r.id@ == bytes::be_bytes(c.id.0 as nat, 16),
        c.kind == MaskKind::Ban <==> r.kind == 1,
        c.kind == MaskKind::Exempt <==> r.kind == 2,
        c.kind == MaskKind::Invite <==> r.kind == 3,
        d.kind == MaskKind::Ban <==> s.kind == 1,
        d.kind == MaskKind::Exempt <==> s.kind == 2,
        d.kind == MaskKind::Invite <==> s.kind == 3,
        r.channel_id is Some == c.channel_id is Some,
        d.channel_id is Some == s.channel_id is Some,
        c.channel_id matches Some(id) ==> r.channel_id->0@ == bytes::be_bytes(id.0 as nat, 16),
        r.mask@ == c.mask@ && d.mask@ == s.mask@,
        row_laws::same_optional(r.reason, c.reason) && row_laws::same_optional(d.reason, s.reason),
        row_laws::same_optional(r.set_by, c.set_by) && row_laws::same_optional(d.set_by, s.set_by),
        r.set_at == c.set_at && d.set_at == s.set_at,
        r.expires_at == c.expires_at && d.expires_at == s.expires_at,
        r.sticky == (if c.sticky { 1i64 } else { 0i64 }) && d.sticky == (s.sticky != 0),
        r.updated_at == c.updated_at && d.updated_at == s.updated_at,
        r.origin_node@ == c.origin_node@ && d.origin_node@ == s.origin_node@,
{
    assert(d@.reason == text::opt_view(d.reason));
    assert(d@.set_by == text::opt_view(d.set_by));
}

/// The columns of an audit entry hold the fields of the same name, and are read as such;
/// a source is stored by its name.
pub proof fn audit_columns_hold_their_fields(
    c: &AuditEntry,
    r: AuditRow,
    s: AuditRow,
    details: Details,
    d: AuditEntry,
)
    requires
        call_ensures(rows::audit_row, (c,), r),
        call_ensures(rows::map_audit_row, (s, details), d),
        s.id@.len() >= 16,
    ensures
        r.id@ == bytes::be_bytes(c.id.0 as nat, 16),
        r.ts == c.ts && d.ts == s.ts,
        r.actor@ == c.actor@ && d.actor@ == s.actor@,
        r.action@ == c.action@ && d.action@ == s.action@,
        row_laws::same_optional(r.target, c.target) && row_laws::same_optional(d.target, s.target),
        d.details == details,
        c.source == AuditSource::Api ==> r.source@ == "api"@,
        c.source == AuditSource::Irc ==> r.source@ == "irc"@,
        c.source == AuditSource::Mesh ==> r.source@ == "mesh"@,
        c.source == AuditSource::System ==> r.source@ == "system"@,
        s.source@ == "api"@ ==> d.source == AuditSource::Api,
        s.source@ == "irc"@ ==> d.source == AuditSource::Irc,
        s.source@ == "mesh"@ ==> d.source == AuditSource::Mesh,
        s.source@ == "system"@ ==> d.source == AuditSource::System,
{
    assert(audit::source_name(AuditSource::Api) == "api"@);
    assert(audit::source_name(AuditSource::Irc) == "irc"@);
    assert(audit::source_name(AuditSource::Mesh) == "mesh"@);
    assert(audit::source_name(AuditSource::System) == "system"@);
}

/// A token counts until its time has come.
pub proof fn token_expires_on_time(t: &StoredToken, now: i64, b: bool)
    requires
        call_ensures(StoredToken::is_expired, (t, now), b),
    ensures
        now < t.expires_at ==> !b,
        now >= t.expires_at ==> b,
{
}

/// A hash is read from a column of 32 bytes as it is.
pub proof fn hash_is_read_as_it_is(
    column: &Vec<u8>,
    h: crate::model::auth_token::AuthTokenHash,
)
    requires
        call_ensures(rows::map_hash, (column,), h),
        column@.len() == 32,
    ensures
        h.0@ == column@,
{
}

// ----- finding ------------------------------------------------------------------

/// The owner that is found is that of the first hostmask that matches; without a match
/// nobody is found.
pub proof fn first_matching_host_decides(
    rows: &Vec<(UserId, String)>,
    host: &str,
    r: Option<UserId>,
    i: int,
)
    requires
        call_ensures(users::match_by_host, (rows, host), r),
    ensures
        (forall|j: int| 0 <= j < rows@.len() ==> !glob::glob((#[trigger] rows@[j]).1@, host@))
            ==> r is None,
        0 <= i < rows@.len() && glob::glob(rows@[i].1@, host@) && (forall|j: int|
            0 <= j < i ==> !glob::glob((#[trigger] rows@[j]).1@, host@)) ==> r == Some(rows@[i].0),
{
    let all = users::owned_masks(rows@);
    lemma_owner(all, host@, i);
    assert(forall|j: int|
        0 <= j < rows@.len() ==> #[trigger] all[j] == (rows@[j].0, rows@[j].1@));
}

proof fn lemma_owner(all: Seq<(UserId, Seq<char>)>, host: Seq<char>, i: int)
    ensures
        (forall|j: int| 0 <= j < all.len() ==> !glob::glob((#[trigger] all[j]).1, host))
            ==> users::owner_of(all, host) is None,
        0 <= i < all.len() && glob::glob(all[i].1, host) && (forall|j: int|
            0 <= j < i ==> !glob::glob((#[trigger] all[j]).1, host)) ==> users::owner_of(all, host)
            == Some(all[i].0),
    decreases all.len(),
{
    if all.len() > 0 {
        let t = all.drop_first();
        lemma_owner(t, host, i - 1);
        assert(forall|j: int| 0 <= j < t.len() ==> #[trigger] t[j] == all[j + 1]);
    }
}

/// Whether some mask of a list matches.
pub open spec fn some_match(l: Seq<Mask>, host: Seq<char>) -> bool {
    exists|i: int| 0 <= i < l.len() && glob::glob((#[trigger] l[i]).mask@, host)
}

/// The ban that catches a host is the first one that matches, of the channel before that
/// of the network. An exempt of either that matches saves the host, and without a ban
/// that matches it is not caught.
pub proof fn first_matching_ban_catches(
    bans: &Vec<Mask>,
    global_bans: &Vec<Mask>,
    exempts: &Vec<Mask>,
    global_exempts: &Vec<Mask>,
    host: &str,
    r: Option<&Mask>,
    i: int,
)
    requires
        call_ensures(masks::match_ban, (bans, global_bans, exempts, global_exempts, host), r),
    ensures
        ({
            let saved = some_match(exempts@, host@) || some_match(global_exempts@, host@);
            &&& saved ==> r is None
            &&& !some_match(bans@, host@) && !some_match(global_bans@, host@) ==> r is None
            &&& !saved && 0 <= i < bans@.len() && glob::glob(bans@[i].mask@, host@) && (forall|
                j: int,
            |
                0 <= j < i ==> !glob::glob((#[trigger] bans@[j]).mask@, host@)) ==> (r matches Some(
                m,
            ) && m@ == bans@[i]@)
            &&& !saved && !some_match(bans@, host@) && 0 <= i < global_bans@.len() && glob::glob(
                global_bans@[i].mask@,
                host@,
            ) && (forall|j: int|
                0 <= j < i ==> !glob::glob((#[trigger] global_bans@[j]).mask@, host@)) ==> (
            r matches Some(m) && m@ == global_bans@[i]@)
        }),
{
    lemma_first(bans@, global_bans@, host@, i);
    lemma_first(exempts@, global_exempts@, host@, 0);
}

proof fn lemma_first(a: Seq<Mask>, b: Seq<Mask>, host: Seq<char>, i: int)
    ensures
        ({
            let f = masks::first_match(views::list(a) + views::list(b), host);
            &&& f is Some == (some_match(a, host) || some_match(b, host))
            &&& 0 <= i < a.len() && glob::glob(a[i].mask@, host) && (forall|j: int|
                0 <= j < i ==> !glob::glob((#[trigger] a[j]).mask@, host)) ==> f == Some(a[i]@)
            &&& !some_match(a, host) && 0 <= i < b.len() && glob::glob(b[i].mask@, host) && (
            forall|j: int| 0 <= j < i ==> !glob::glob((#[trigger] b[j]).mask@, host)) ==> f
                == Some(b[i]@)
        }),
    decreases a.len() + b.len(),
{
    let all = views::list(a) + views::list(b);
    if a.len() > 0 {
        let t = a.drop_first();
        lemma_first(t, b, host, i);
        lemma_first(t, b, host, i - 1);
        assert(all.drop_first() =~= views::list(t) + views::list(b));
        assert(all[0] == a[0]@);
        lemma_rest(a, host);
        assert(forall|j: int| 0 <= j < t.len() ==> #[trigger] t[j] == a[j + 1]);
    } else if b.len() > 0 {
        let t = b.drop_first();
        lemma_first(a, t, host, i - 1);
        assert(all.drop_first() =~= views::list(a) + views::list(t));
        assert(all[0] == b[0]@);
        lemma_rest(b, host);
        assert(forall|j: int| 0 <= j < t.len() ==> #[trigger] t[j] == b[j + 1]);
    }
}

proof fn lemma_rest(a: Seq<Mask>, host: Seq<char>)
    requires
        a.len() > 0,
    ensures
        some_match(a, host) == (glob::glob(a[0].mask@, host) || some_match(a.drop_first(), host)),
{
    let t = a.drop_first();
    if some_match(t, host) {
        let i = choose|i: int| 0 <= i < t.len() && glob::glob((#[trigger] t[i]).mask@, host);
        assert(a[i + 1] == t[i]);
    }
    if some_match(a, host) && !glob::glob(a[0].mask@, host) {
        let i = choose|i: int| 0 <= i < a.len() && glob::glob((#[trigger] a[i]).mask@, host);
        assert(t[i - 1] == a[i]);
    }
}

// ----- patterns -----------------------------------------------------------------

/// A `?` stands for exactly one character, whichever; any other character but `*` for
/// itself, whatever its case.
pub proof fn one_character_of_a_pattern(c: char, p: Seq<char>, x: char, t: Seq<char>)
    requires
        c != '*',
    ensures
        !glob::glob(seq![c] + p, Seq::empty()),
        c == '?' ==> glob::glob(seq![c] + p, seq![x] + t) == glob::glob(p, t),
        c != '?' && text::lower_char(c) == text::lower_char(x) ==> glob::glob(
            seq![c] + p,
            seq![x] + t,
        ) == glob::glob(p, t),
        c != '?' && text::lower_char(c) != text::lower_char(x) ==> !glob::glob(
            seq![c] + p,
            seq![x] + t,
        ),
{
    assert((seq![c] + p).drop_first() =~= p);
    assert((seq![x] + t).drop_first() =~= t);
}

/// A `*` stands for any text, however long, in front of what the rest of the pattern
/// matches.
pub proof fn star_takes_any_text(p: Seq<char>, skipped: Seq<char>, t: Seq<char>)
    requires
        glob::glob(p, t),
    ensures
        glob::glob(seq!['*'] + p, skipped + t),
{
    let q = seq!['*'] + p;
    let u = skipped + t;
    assert(q.drop_first() =~= p);
    glob::star_takes_any_prefix(q, u);
    assert(u.skip(skipped.len() as int) =~= t);
    assert(glob::glob(q.drop_first(), u.skip(skipped.len() as int)));
}

/// Nothing but the empty text matches an empty pattern.
pub proof fn empty_pattern(t: Seq<char>)
    ensures
        glob::glob(Seq::empty(), t) == (t.len() == 0),
{
}

} // verus!
