//! The columns that records are stored in.
//!
//! Identifiers are byte strings, flag sets signed 64-bit integers of the same
//! bits, switches `0` or `1`, and mask kinds their number. Every record survives
//! being written as columns and read back.

use crate::bytes;
use crate::model::audit::{audit_source_of, audit_source_str, AuditEntry, AuditSource, Details};
use crate::model::audit;
use crate::model::auth_token::AuthTokenHash;
use crate::model::channel::{
    Channel, ChannelRecord, ChannelSettings, ChannelUserFlags, SettingsView, UserFlagsView,
};
use crate::model::flags;
use crate::model::flags::FlagSet;
use crate::model::ids::{AuditId, ChannelId, MaskId, UserId};
use crate::model::mask;
use crate::model::mask::{Mask, MaskKind, MaskView};
use crate::model::user::{User, UserView};
use crate::text;
use vstd::prelude::*;

verus! {

// ----- single columns -----------------------------------------------------------

/// The identifier in a column: its first sixteen bytes.
pub open spec fn id_in(column: Seq<u8>) -> u128 {
    bytes::be_value(column.take(16)) as u128
}

/// The column of an identifier.
pub open spec fn id_column(id: u128) -> Seq<u8> {
    bytes::be_bytes(id as nat, 16)
}

/// The number in a flag column.
pub open spec fn flags_column(f: FlagSet) -> i64 {
    bytes::signed_of(f.spec_bits() as nat) as i64
}

/// The flag set in a column.
pub open spec fn flags_in(column: i64) -> FlagSet {
    FlagSet::of_bits(bytes::signed_bits(column) as u64)
}

/// The number of a switch.
pub open spec fn switch_column(b: bool) -> i64 {
    if b {
        1
    } else {
        0
    }
}

fn bytes_column(b: [u8; 16]) -> (v: Vec<u8>)
    ensures
        v@ == b@,
{
    let mut v: Vec<u8> = Vec::new();
    let mut i: usize = 0;
    while i < 16
        invariant
            i <= 16,
            v@ =~= b@.take(i as int),
        decreases 16 - i,
    {
        v.push(b[i]);
        i = i + 1;
    }
    assert(b@.take(16) =~= b@);
    v
}

fn id_bytes(column: &Vec<u8>) -> (b: [u8; 16])
    requires
        column@.len() >= 16,
    ensures
        b@ == column@.take(16),
{
    let mut b: [u8; 16] = [0u8; 16];
    let mut i: usize = 0;
    while i < 16
        invariant
            i <= 16,
            column@.len() >= 16,
            forall|j: int| 0 <= j < i ==> b@[j] == column@[j],
        decreases 16 - i,
    {
        b[i] = column[i];
        i = i + 1;
    }
    assert(b@ =~= column@.take(16));
    b
}

/// The column of a flag set.
pub fn write_flags(f: FlagSet) -> (n: i64)
    ensures
        n == flags_column(f),
{
    bytes::from_bits(f.bits())
}

/// The flag set of a column.
pub fn read_flags(column: i64) -> (f: FlagSet)
    ensures
        f == flags_in(column),
{
    FlagSet::from_bits(bytes::to_bits(column))
}

fn switch(b: bool) -> (n: i64)
    ensures
        n == switch_column(b),
{
    if b {
        1
    } else {
        0
    }
}

proof fn lemma_id(id: u128)
    ensures
        id_column(id).len() == 16,
        id_in(id_column(id)) == id,
{
    bytes::limits();
    bytes::value_of_bytes(id as nat, 16);
    assert(id_column(id).take(16) =~= id_column(id));
}

/// A flag set survives being stored as a signed integer.
pub proof fn flags_survive_column(f: FlagSet)
    ensures
        flags_in(flags_column(f)) == f,
{
    flags::set_is_its_bitmap(f, f.spec_bits());
}

// ----- users --------------------------------------------------------------------

/// The columns of a user. Hostmasks are stored apart.
#[derive(Debug, Clone, PartialEq, Eq)]
pub struct UserRow {
    pub id: Vec<u8>,
    pub handle: String,
    pub password_hash: Option<String>,
    pub is_bot: i64,
    pub global_flags: i64,
    pub comment: Option<String>,
    pub created_at: i64,
    pub updated_at: i64,
    pub last_seen_at: Option<i64>,
    pub origin_node: String,
}

/// Whether `r` holds the columns of the user `u`.
pub open spec fn holds_user(r: UserRow, u: UserView) -> bool {
    &&& r.id@ == id_column(u.id.0)
    &&& r.handle@ == u.handle
    &&& text::opt_view(r.password_hash) == u.password_hash
    &&& r.is_bot == switch_column(u.is_bot)
    &&& r.global_flags == flags_column(u.global_flags)
    &&& text::opt_view(r.comment) == u.comment
    &&& r.created_at == u.created_at
    &&& r.updated_at == u.updated_at
    &&& r.last_seen_at == u.last_seen_at
    &&& r.origin_node@ == u.origin_node
}

/// The user that columns and hostmasks stand for.
pub open spec fn user_in(r: UserRow, hosts: Seq<Seq<char>>) -> UserView {
    UserView {
        id: UserId(id_in(r.id@)),
        handle: r.handle@,
        password_hash: text::opt_view(r.password_hash),
        is_bot: r.is_bot != 0,
        global_flags: flags_in(r.global_flags),
        comment: text::opt_view(r.comment),
        hosts,
        created_at: r.created_at,
        updated_at: r.updated_at,
        last_seen_at: r.last_seen_at,
        origin_node: r.origin_node@,
    }
}

/// The columns of a user.
pub fn user_row(u: &User) -> (r: UserRow)
    ensures
        holds_user(r, u@),
{
    UserRow {
        id: bytes_column(u.id.as_bytes()),
        handle: u.handle.clone(),
        password_hash: text::opt_clone(&u.password_hash),
        is_bot: switch(u.is_bot),
        global_flags: write_flags(u.global_flags),
        comment: text::opt_clone(&u.comment),
        created_at: u.created_at,
        updated_at: u.updated_at,
        last_seen_at: u.last_seen_at,
        origin_node: u.origin_node.clone(),
    }
}

/// The user of a row. Its id column has at least sixteen bytes.
pub fn map_user_row(row: UserRow, hosts: Vec<String>) -> (u: User)
    requires
        row.id@.len() >= 16,
    ensures
        u@ == user_in(row, text::views(hosts@)),
{
    User {
        id: UserId::from_bytes(id_bytes(&row.id)),
        handle: row.handle,
        password_hash: row.password_hash,
        is_bot: row.is_bot != 0,
        global_flags: read_flags(row.global_flags),
        comment: row.comment,
        hosts,
        created_at: row.created_at,
        updated_at: row.updated_at,
        last_seen_at: row.last_seen_at,
        origin_node: row.origin_node,
    }
}

/// A user survives being stored.
pub proof fn user_survives_row(r: UserRow, u: UserView)
    requires
        holds_user(r, u),
    ensures
        r.id@.len() >= 16,
        user_in(r, u.hosts) == u,
{
    lemma_id(u.id.0);
    flags_survive_column(u.global_flags);
}

// ----- channels -----------------------------------------------------------------

/// The columns of a channel.
#[derive(Debug, Clone, PartialEq, Eq)]
pub struct ChannelRow {
    pub id: Vec<u8>,
    pub name: String,
    pub created_at: i64,
    pub updated_at: i64,
    pub origin_node: String,
}

/// Whether `r` holds the columns of the channel `c`.
pub open spec fn holds_channel(r: ChannelRow, c: ChannelRecord) -> bool {
    &&& r.id@ == id_column(c.id.0)
    &&& r.name@ == c.name
    &&& r.created_at == c.created_at
    &&& r.updated_at == c.updated_at
    &&& r.origin_node@ == c.origin_node
}

/// The channel that columns stand for.
pub open spec fn channel_in(r: ChannelRow) -> ChannelRecord {
    ChannelRecord {
        id: ChannelId(id_in(r.id@)),
        name: r.name@,
        created_at: r.created_at,
        updated_at: r.updated_at,
        origin_node: r.origin_node@,
    }
}

/// The columns of a channel.
pub fn channel_row(c: &Channel) -> (r: ChannelRow)
    ensures
        holds_channel(r, c@),
{
    ChannelRow {
        id: bytes_column(c.id.as_bytes()),
        name: c.name.clone(),
        created_at: c.created_at,
        updated_at: c.updated_at,
        origin_node: c.origin_node.clone(),
    }
}

/// The channel of a row. Its id column has at least sixteen bytes.
pub fn map_channel_row(row: ChannelRow) -> (c: Channel)
    requires
        row.id@.len() >= 16,
    ensures
        c@ == channel_in(row),
{
    Channel {
        id: ChannelId::from_bytes(id_bytes(&row.id)),
        name: row.name,
        created_at: row.created_at,
        updated_at: row.updated_at,
        origin_node: row.origin_node,
    }
}

/// A channel survives being stored.
pub proof fn channel_survives_row(r: ChannelRow, c: ChannelRecord)
    requires
        holds_channel(r, c),
    ensures
        r.id@.len() >= 16,
        channel_in(r) == c,
{
    lemma_id(c.id.0);
}

// ----- channel settings ---------------------------------------------------------

/// The columns of channel settings.
#[derive(Debug, Clone, PartialEq, Eq)]
pub struct SettingsRow {
    pub channel_id: Vec<u8>,
    pub flags: i64,
    pub mode_pls: String,
    pub mode_mns: String,
    pub limit_prot: Option<i32>,
    pub key_prot: Option<String>,
    pub topic_saved: Option<String>,
    pub updated_at: i64,
    pub origin_node: String,
}

/// Whether `r` holds the columns of the settings `s`.
pub open spec fn holds_settings(r: SettingsRow, s: SettingsView) -> bool {
    &&& r.channel_id@ == id_column(s.channel_id.0)
    &&& r.flags == flags_column(s.flags)
    &&& r.mode_pls@ == s.mode_pls
    &&& r.mode_mns@ == s.mode_mns
    &&& r.limit_prot == s.limit_prot
    &&& text::opt_view(r.key_prot) == s.key_prot
    &&& text::opt_view(r.topic_saved) == s.topic_saved
    &&& r.updated_at == s.updated_at
    &&& r.origin_node@ == s.origin_node
}

/// The settings that columns stand for.
pub open spec fn settings_in(r: SettingsRow) -> SettingsView {
    SettingsView {
        channel_id: ChannelId(id_in(r.channel_id@)),
        flags: flags_in(r.flags),
        mode_pls: r.mode_pls@,
        mode_mns: r.mode_mns@,
        limit_prot: r.limit_prot,
        key_prot: text::opt_view(r.key_prot),
        topic_saved: text::opt_view(r.topic_saved),
        updated_at: r.updated_at,
        origin_node: r.origin_node@,
    }
}

/// The columns of channel settings.
pub fn settings_row(s: &ChannelSettings) -> (r: SettingsRow)
    ensures
        holds_settings(r, s@),
{
    SettingsRow {
        channel_id: bytes_column(s.channel_id.as_bytes()),
        flags: write_flags(s.flags),
        mode_pls: s.mode_pls.clone(),
        mode_mns: s.mode_mns.clone(),
        limit_prot: s.limit_prot,
        key_prot: text::opt_clone(&s.key_prot),
        topic_saved: text::opt_clone(&s.topic_saved),
        updated_at: s.updated_at,
        origin_node: s.origin_node.clone(),
    }
}

/// The settings of a row. Its id column has at least sixteen bytes.
pub fn map_settings_row(row: SettingsRow) -> (s: ChannelSettings)
    requires
        row.channel_id@.len() >= 16,
    ensures
        s@ == settings_in(row),
{
    ChannelSettings {
        channel_id: ChannelId::from_bytes(id_bytes(&row.channel_id)),
        flags: read_flags(row.flags),
        mode_pls: row.mode_pls,
        mode_mns: row.mode_mns,
        limit_prot: row.limit_prot,
        key_prot: row.key_prot,
        topic_saved: row.topic_saved,
        updated_at: row.updated_at,
        origin_node: row.origin_node,
    }
}

/// Settings survive being stored.
pub proof fn settings_survive_row(r: SettingsRow, s: SettingsView)
    requires
        holds_settings(r, s),
    ensures
        r.channel_id@.len() >= 16,
        settings_in(r) == s,
{
    lemma_id(s.channel_id.0);
    flags_survive_column(s.flags);
}

// ----- channel user flags -------------------------------------------------------

/// The columns of a user's flags in a channel.
#[derive(Debug, Clone, PartialEq, Eq)]
pub struct UserFlagsRow {
    pub channel_id: Vec<u8>,
    pub user_id: Vec<u8>,
    pub flags: i64,
    pub updated_at: i64,
    pub origin_node: String,
}

/// Whether `r` holds the columns of the flag record `f`.
pub open spec fn holds_user_flags(r: UserFlagsRow, f: UserFlagsView) -> bool {
    &&& r.channel_id@ == id_column(f.channel_id.0)
    &&& r.user_id@ == id_column(f.user_id.0)
    &&& r.flags == flags_column(f.flags)
    &&& r.updated_at == f.updated_at
    &&& r.origin_node@ == f.origin_node
}

/// The flag record that columns stand for.
pub open spec fn user_flags_in(r: UserFlagsRow) -> UserFlagsView {
    UserFlagsView {
        channel_id: ChannelId(id_in(r.channel_id@)),
        user_id: UserId(id_in(r.user_id@)),
        flags: flags_in(r.flags),
        updated_at: r.updated_at,
        origin_node: r.origin_node@,
    }
}

/// The columns of a user's flags in a channel.
pub fn user_flags_row(f: &ChannelUserFlags) -> (r: UserFlagsRow)
    ensures
        holds_user_flags(r, f@),
{
    UserFlagsRow {
        channel_id: bytes_column(f.channel_id.as_bytes()),
        user_id: bytes_column(f.user_id.as_bytes()),
        flags: write_flags(f.flags),
        updated_at: f.updated_at,
        origin_node: f.origin_node.clone(),
    }
}

/// The flag record of a row. Its id columns have at least sixteen bytes.
pub fn map_user_flags_row(row: UserFlagsRow) -> (f: ChannelUserFlags)
    requires
        row.channel_id@.len() >= 16,
        row.user_id@.len() >= 16,
    ensures
        f@ == user_flags_in(row),
{
    ChannelUserFlags {
        channel_id: ChannelId::from_bytes(id_bytes(&row.channel_id)),
        user_id: UserId::from_bytes(id_bytes(&row.user_id)),
        flags: read_flags(row.flags),
        updated_at: row.updated_at,
        origin_node: row.origin_node,
    }
}

/// A user's flags in a channel survive being stored.
pub proof fn user_flags_survive_row(r: UserFlagsRow, f: UserFlagsView)
    requires
        holds_user_flags(r, f),
    ensures
        r.channel_id@.len() >= 16,
        r.user_id@.len() >= 16,
        user_flags_in(r) == f,
{
    lemma_id(f.channel_id.0);
    lemma_id(f.user_id.0);
    flags_survive_column(f.flags);
}

// ----- masks --------------------------------------------------------------------

/// The columns of a mask.
#[derive(Debug, Clone, PartialEq, Eq)]
pub struct MaskRow {
    pub id: Vec<u8>,
    pub kind: i64,
    pub channel_id: Option<Vec<u8>>,
    pub mask: String,
    pub reason: Option<String>,
    pub set_by: Option<String>,
    pub set_at: i64,
    pub expires_at: Option<i64>,
    pub sticky: i64,
    pub updated_at: i64,
    pub origin_node: String,
}

/// The kind with a number from one to three.
pub open spec fn kind_in(n: i64) -> MaskKind {
    if n == 1 {
        MaskKind::Ban
    } else if n == 2 {
        MaskKind::Exempt
    } else {
        MaskKind::Invite
    }
}

/// Whether `r` holds the columns of the mask `m`.
pub open spec fn holds_mask(r: MaskRow, m: MaskView) -> bool {
    &&& r.id@ == id_column(m.id.0)
    &&& r.kind == mask::kind_number(m.kind)
    &&& match m.channel_id {
        Some(c) => r.channel_id matches Some(v) && v@ == id_column(c.0),
        None => r.channel_id is None,
    }
    &&& r.mask@ == m.mask
    &&& text::opt_view(r.reason) == m.reason
    &&& text::opt_view(r.set_by) == m.set_by
    &&& r.set_at == m.set_at
    &&& r.expires_at == m.expires_at
    &&& r.sticky == switch_column(m.sticky)
    &&& r.updated_at == m.updated_at
    &&& r.origin_node@ == m.origin_node
}

/// Whether the columns are those of a mask: a known kind, and identifiers of at
/// least sixteen bytes.
pub open spec fn readable_mask(r: MaskRow) -> bool {
    &&& r.id@.len() >= 16
    &&& 1 <= r.kind <= 3
    &&& r.channel_id matches Some(v) ==> v@.len() >= 16
}

/// The mask that columns stand for.
pub open spec fn mask_in(r: MaskRow) -> MaskView {
    MaskView {
        id: MaskId(id_in(r.id@)),
        kind: kind_in(r.kind),
        channel_id: match r.channel_id {
            Some(v) => Some(ChannelId(id_in(v@))),
            None => None,
        },
        mask: r.mask@,
        reason: text::opt_view(r.reason),
        set_by: text::opt_view(r.set_by),
        set_at: r.set_at,
        expires_at: r.expires_at,
        sticky: r.sticky != 0,
        updated_at: r.updated_at,
        origin_node: r.origin_node@,
    }
}

/// The columns of a mask.
pub fn mask_row(m: &Mask) -> (r: MaskRow)
    ensures
        holds_mask(r, m@),
{
    MaskRow {
        id: bytes_column(m.id.as_bytes()),
        kind: m.kind.as_i64(),
        channel_id: match m.channel_id {
            Some(c) => Some(bytes_column(c.as_bytes())),
            None => None,
        },
        mask: m.mask.clone(),
        reason: text::opt_clone(&m.reason),
        set_by: text::opt_clone(&m.set_by),
        set_at: m.set_at,
        expires_at: m.expires_at,
        sticky: switch(m.sticky),
        updated_at: m.updated_at,
        origin_node: m.origin_node.clone(),
    }
}

/// The mask of a row.
pub fn map_mask_row(row: MaskRow) -> (m: Mask)
    requires
        readable_mask(row),
    ensures
        m@ == mask_in(row),
{
    let kind = match MaskKind::from_i64(row.kind) {
        Some(k) => k,
        None => MaskKind::Invite,
    };
    let channel_id = match &row.channel_id {
        Some(v) => Some(ChannelId::from_bytes(id_bytes(v))),
        None => None,
    };
    Mask {
        id: MaskId::from_bytes(id_bytes(&row.id)),
        kind,
        channel_id,
        mask: row.mask,
        reason: row.reason,
        set_by: row.set_by,
        set_at: row.set_at,
        expires_at: row.expires_at,
        sticky: row.sticky != 0,
        updated_at: row.updated_at,
        origin_node: row.origin_node,
    }
}

/// A mask survives being stored.
pub proof fn mask_survives_row(r: MaskRow, m: MaskView)
    requires
        holds_mask(r, m),
    ensures
        readable_mask(r),
        mask_in(r) == m,
{
    lemma_id(m.id.0);
    if m.channel_id is Some {
        let c = m.channel_id->0;
        lemma_id(c.0);
    }
}

// ----- audit entries ------------------------------------------------------------

/// The columns of an audit entry. Details are stored as JSON text.
#[derive(Debug, Clone, PartialEq, Eq)]
pub struct AuditRow {
    pub id: Vec<u8>,
    pub ts: i64,
    pub actor: String,
    pub action: String,
    pub target: Option<String>,
    pub source: String,
}

/// The columns of an audit entry, but for its details.
pub fn audit_row(e: &AuditEntry) -> (r: AuditRow)
    ensures
        r.id@ == id_column(e.id.0),
        r.ts == e.ts,
        r.actor@ == e.actor@,
        r.action@ == e.action@,
        text::opt_view(r.target) == text::opt_view(e.target),
        r.source@ == audit::source_name(e.source),
{
    AuditRow {
        id: bytes_column(e.id.as_bytes()),
        ts: e.ts,
        actor: e.actor.clone(),
        action: e.action.clone(),
        target: text::opt_clone(&e.target),
        source: text::owned(audit_source_str(e.source)),
    }
}

/// The audit entry of a row and its details.
pub fn map_audit_row(row: AuditRow, details: Details) -> (e: AuditEntry)
    requires
        row.id@.len() >= 16,
    ensures
        e.id.0 == id_in(row.id@),
        e.ts == row.ts,
        e.actor@ == row.actor@,
        e.action@ == row.action@,
        text::opt_view(e.target) == text::opt_view(row.target),
        e.details == details,
        forall|s: AuditSource| row.source@ == #[trigger] audit::source_name(s) ==> e.source == s,
        (forall|s: AuditSource| row.source@ != #[trigger] audit::source_name(s)) ==> e.source
            == AuditSource::System,
{
    let source = audit_source_of(row.source.as_str());
    proof {
        assert forall|s: AuditSource| row.source@ == #[trigger] audit::source_name(s) implies source
            == s by {
            audit::source_names_are_distinct(s, AuditSource::Api);
            audit::source_names_are_distinct(s, AuditSource::Irc);
            audit::source_names_are_distinct(s, AuditSource::Mesh);
        }
        if source != AuditSource::System {
            assert(row.source@ == audit::source_name(source));
        }
    }
    AuditEntry {
        id: AuditId::from_bytes(id_bytes(&row.id)),
        ts: row.ts,
        actor: row.actor,
        action: row.action,
        target: row.target,
        details,
        source,
    }
}

// ----- bearer tokens ------------------------------------------------------------

/// A bearer token at rest. The token itself is not stored, only its hash.
#[derive(Debug, Clone, PartialEq, Eq)]
pub struct StoredToken {
    pub hash: AuthTokenHash,
    pub handle: String,
    pub expires_at: i64,
    pub created_at: i64,
    pub origin_node: String,
}

/// The hash in a column: its bytes if there are 32, else zeros.
pub open spec fn hash_in(column: Seq<u8>) -> Seq<u8> {
    if column.len() == 32 {
        column
    } else {
        Seq::new(32, |i: int| 0u8)
    }
}

/// The hash of a column.
pub fn map_hash(column: &Vec<u8>) -> (h: AuthTokenHash)
    ensures
        h.0@ == hash_in(column@),
{
    let mut b: [u8; 32] = [0u8; 32];
    if column.len() == 32 {
        let mut i: usize = 0;
        while i < 32
            invariant
                i <= 32,
                column@.len() == 32,
                forall|j: int| 0 <= j < i ==> b@[j] == column@[j],
            decreases 32 - i,
        {
            b[i] = column[i];
            i = i + 1;
        }
        assert(b@ =~= column@);
    } else {
        assert(b@ =~= hash_in(column@));
    }
    AuthTokenHash(b)
}

impl StoredToken {
    /// Whether the token no longer counts at `now_ms`.
    pub fn is_expired(&self, now_ms: i64) -> (b: bool)
        ensures
            b == (self.expires_at <= now_ms),
    {
        self.expires_at <= now_ms
    }
}

} // verus!
