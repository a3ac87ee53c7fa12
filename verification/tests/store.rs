//! Writing, matching and storing rows.

use shade::model::audit::{AuditEntry, AuditSource, DetailValue, Details};
use shade::model::auth_token::AuthToken;
use shade::model::channel::{Channel, ChannelSettings, ChannelUserFlags, NewChannel};
use shade::model::flags::FlagSet;
use shade::model::ids::{ChannelId, MaskId, UserId};
use shade::model::mask::{Mask, MaskKind, NewMask};
use shade::model::time::now_ms;
use shade::model::user::NewUser;
use shade::store::glob::irc_glob_match;
use shade::store::rows;
use shade::store::rows::StoredToken;
use shade::store::{channels, masks, users};

fn new_user(handle: &str) -> NewUser {
    NewUser {
        handle: handle.into(),
        password_hash: None,
        is_bot: false,
        global_flags: FlagSet::none(),
        comment: None,
        hosts: vec![],
    }
}

#[test]
fn glob_match_handles_star_question_and_case() {
    assert!(irc_glob_match("*", "anything"));
    assert!(irc_glob_match("*!*@*", "alice!user@host"));
    assert!(irc_glob_match("?lice!*@*", "alice!u@h"));
    assert!(irc_glob_match("*@H?ST.example", "x!u@HOST.example"));
    assert!(!irc_glob_match("alice!*", "BOB!u@h"));
}

#[test]
fn glob_question_mark_is_one_character() {
    assert!(irc_glob_match("?", "é"));
    assert!(!irc_glob_match("?", ""));
    assert!(!irc_glob_match("??", "é"));
    assert!(irc_glob_match("", ""));
    assert!(!irc_glob_match("", "a"));
    assert!(irc_glob_match("a**b", "ab"));
    assert!(irc_glob_match("plain", "PLAIN"));
    assert!(!irc_glob_match("plain", "plainer"));
}

fn mask(kind: MaskKind, channel_id: Option<ChannelId>, pattern: &str) -> Mask {
    masks::insert(
        &NewMask {
            kind,
            channel_id,
            mask: pattern.into(),
            reason: None,
            set_by: None,
            expires_at: None,
            sticky: false,
        },
        "node-a",
    )
}

#[test]
fn match_ban_returns_first_matching_channel_or_global_ban() {
    let chan = ChannelId::new();
    let bans = vec![mask(MaskKind::Ban, Some(chan), "*!*@bad.example")];
    let none = vec![];
    assert!(masks::match_ban(&bans, &none, &none, &none, "evil!u@bad.example").is_some());
    assert!(masks::match_ban(&bans, &none, &none, &none, "alice!u@trusted.example").is_none());
    let global = vec![mask(MaskKind::Ban, None, "*!*@*.example")];
    let hit = masks::match_ban(&bans, &global, &none, &none, "evil!u@bad.example").unwrap();
    assert_eq!(hit.id, bans[0].id);
    let hit = masks::match_ban(&bans, &global, &none, &none, "evil!u@other.example").unwrap();
    assert_eq!(hit.id, global[0].id);
}

#[test]
fn match_ban_respects_exempts() {
    let chan = ChannelId::new();
    let bans = vec![mask(MaskKind::Ban, Some(chan), "*!*@bad.example")];
    let exempts = vec![mask(MaskKind::Exempt, Some(chan), "alice!*@*")];
    let none = vec![];
    // alice would match the ban host, but the exempt covers them.
    assert!(masks::match_ban(&bans, &none, &exempts, &none, "alice!u@bad.example").is_none());
    assert!(masks::match_ban(&bans, &none, &none, &exempts, "alice!u@bad.example").is_none());
    // someone else still gets caught by the ban.
    assert!(masks::match_ban(&bans, &none, &exempts, &none, "eve!u@bad.example").is_some());
}

#[test]
fn insert_stamps_a_new_mask() {
    let m = mask(MaskKind::Ban, None, "*!*@evil.example");
    assert_eq!(m.mask, "*!*@evil.example");
    assert_eq!(m.kind, MaskKind::Ban);
    assert_eq!(m.set_at, m.updated_at);
    assert_eq!(m.origin_node, "node-a");
    assert_ne!(m.id, mask(MaskKind::Ban, None, "*!*@evil.example").id);
    let fixed = masks::insert_row(
        &NewMask {
            kind: MaskKind::Invite,
            channel_id: None,
            mask: "m".into(),
            reason: Some("r".into()),
            set_by: Some("s".into()),
            expires_at: Some(9),
            sticky: true,
        },
        MaskId(5),
        77,
        "n",
    );
    assert_eq!(fixed.set_at, 77);
    assert_eq!(fixed.updated_at, 77);
    assert_eq!(fixed.id, MaskId(5));
    assert_eq!(fixed.expires_at, Some(9));
    assert!(fixed.sticky);
}

#[test]
fn upsert_is_idempotent_on_handle() {
    let first = users::upsert_in_tx(None, &new_user("alice"), "node-a");
    let mut again = new_user("alice");
    again.comment = Some("updated".into());
    let second = users::upsert_in_tx(Some((first.id, first.created_at, first.last_seen_at)), &again, "node-a");
    assert_eq!(first.id, second.id, "same handle should keep same id");
    assert_eq!(second.created_at, first.created_at);
    assert_eq!(second.comment.as_deref(), Some("updated"));
}

#[test]
fn upsert_replaces_host_list_atomically() {
    let mut nu = new_user("alice");
    nu.hosts = vec!["*!*@old.example".into()];
    let v1 = users::upsert_in_tx(None, &nu, "node-a");
    nu.hosts = vec!["*!*@new.example".into(), "*!*@also.example".into()];
    let updated = users::upsert_in_tx(Some((v1.id, v1.created_at, v1.last_seen_at)), &nu, "node-a");
    let mut hosts = updated.hosts;
    hosts.sort();
    assert_eq!(hosts, vec!["*!*@also.example", "*!*@new.example"]);
}

#[test]
fn upsert_row_is_exact() {
    let u = users::upsert_row(None, &new_user("bob"), UserId(7), 1_000, "node-b");
    assert_eq!(u.id, UserId(7));
    assert_eq!(u.created_at, 1_000);
    assert_eq!(u.updated_at, 1_000);
    assert_eq!(u.last_seen_at, None);
    assert_eq!(u.origin_node, "node-b");
    let existing = Some((UserId(3), 5, Some(77)));
    let v = users::upsert_row(existing, &new_user("bob"), UserId(7), 1_000, "node-b");
    assert_eq!((v.id, v.created_at, v.updated_at), (UserId(3), 5, 1_000));
    assert_eq!(v.last_seen_at, Some(77));
}

#[test]
fn match_by_host_returns_user_with_matching_hostmask() {
    let alice = UserId(1);
    let bob = UserId(2);
    let rows = vec![
        (alice, "*!*@trusted.example".to_string()),
        (alice, "alice!*@*".to_string()),
        (bob, "bob!*@*".to_string()),
    ];
    assert_eq!(
        users::match_by_host(&rows, "alice!ident@trusted.example"),
        Some(alice)
    );
    assert_eq!(users::match_by_host(&rows, "bob!u@h"), Some(bob));
    // No user matches an entirely different host.
    assert_eq!(users::match_by_host(&rows, "stranger!u@other.example"), None);
}

#[test]
fn upsert_is_idempotent_on_name() {
    let nc = NewChannel { name: "#x".into() };
    let a = channels::upsert(None, &nc, "node-a");
    let b = channels::upsert(Some((a.id, a.created_at)), &nc, "node-a");
    assert_eq!(a.id, b.id);
    let c = channels::upsert_row(None, &nc, ChannelId(4), 12, "n");
    assert_eq!((c.id, c.created_at, c.updated_at), (ChannelId(4), 12, 12));
}

fn settings() -> ChannelSettings {
    ChannelSettings {
        channel_id: ChannelId(8),
        flags: "+ax".parse().unwrap(),
        mode_pls: "ntC".into(),
        mode_mns: "s".into(),
        limit_prot: Some(50),
        key_prot: Some("hunter2".into()),
        topic_saved: Some("Hello".into()),
        updated_at: 0,
        origin_node: String::new(),
    }
}

#[test]
fn settings_upsert_round_trips() {
    let written = channels::upsert_settings(&settings(), "node-a");
    assert!(written.updated_at > 0);
    let read = rows::map_settings_row(rows::settings_row(&written));
    assert_eq!(read, written);
    assert_eq!(read.flags.to_string(), "+ax");
    assert_eq!(read.mode_pls, "ntC");
    assert_eq!(read.limit_prot, Some(50));
    assert_eq!(read.origin_node, "node-a");
}

#[test]
fn user_flags_are_stamped_and_stored() {
    let flags: FlagSet = "+ov".parse().unwrap();
    let row = channels::upsert_user_flags(ChannelId(1), UserId(2), flags, "node-a");
    assert_eq!(row.flags, flags);
    let read: ChannelUserFlags = rows::map_user_flags_row(rows::user_flags_row(&row));
    assert_eq!(read, row);
}

#[test]
fn flagset_round_trips_through_sqlite_integer_column() {
    let flags: FlagSet = "+oxv".parse().unwrap();
    let mut nu = new_user("alice");
    nu.global_flags = flags;
    let written = users::upsert_in_tx(None, &nu, "node-a");
    assert_eq!(written.global_flags, flags);
    let reread = rows::map_user_row(rows::user_row(&written), vec![]);
    assert_eq!(reread.global_flags, flags);
    let all = FlagSet::from_bits(u64::MAX);
    assert_eq!(rows::write_flags(all), -1);
    assert_eq!(rows::read_flags(-1), all);
}

#[test]
fn rows_hold_what_records_say() {
    let mut u = users::upsert_row(None, &new_user("bob"), UserId(7), 1_000, "node-b");
    u.is_bot = true;
    u.hosts = vec!["h".into()];
    u.last_seen_at = Some(3);
    let row = rows::user_row(&u);
    assert_eq!(row.id, [0, 0, 0, 0, 0, 0, 0, 0, 0, 0, 0, 0, 0, 0, 0, 7]);
    assert_eq!(row.is_bot, 1);
    assert_eq!(rows::map_user_row(row, u.hosts.clone()), u);

    let c = Channel {
        id: ChannelId(1 << 120),
        name: "#x".into(),
        created_at: 1,
        updated_at: 2,
        origin_node: "n".into(),
    };
    assert_eq!(rows::channel_row(&c).id[0], 1);
    assert_eq!(rows::map_channel_row(rows::channel_row(&c)), c);

    let mut m = mask(MaskKind::Exempt, Some(ChannelId(6)), "a!*@*");
    m.sticky = true;
    let row = rows::mask_row(&m);
    assert_eq!(row.kind, 2);
    assert_eq!(row.sticky, 1);
    assert_eq!(rows::map_mask_row(row), m);

    let e = AuditEntry::new(5, "@a", "x", AuditSource::Mesh).with_target("t");
    let row = rows::audit_row(&e);
    assert_eq!(row.source, "mesh");
    assert_eq!(rows::map_audit_row(row, Details::Null), e);
    let mut odd = rows::audit_row(&e);
    odd.source = "elsewhere".into();
    assert_eq!(rows::map_audit_row(odd, Details::Null).source, AuditSource::System);
}

#[test]
fn stored_tokens_expire() {
    let token = AuthToken::random();
    let row = StoredToken {
        hash: token.hash(),
        handle: "alice".into(),
        expires_at: 1_000,
        created_at: 0,
        origin_node: "n".into(),
    };
    assert!(!row.is_expired(999));
    assert!(row.is_expired(1_000));
    assert_eq!(rows::map_hash(&token.hash().as_bytes().to_vec()), token.hash());
    assert_eq!(rows::map_hash(&vec![1, 2, 3]).as_bytes(), &[0u8; 32]);
}

#[test]
fn upsert_creates_user_and_get_by_handle_returns_it() {
    let nu = NewUser {
        handle: "alice".into(),
        password_hash: None,
        is_bot: false,
        global_flags: "+a".parse().unwrap(),
        comment: Some("the boss".into()),
        hosts: vec!["*!*@trusted.example".into()],
    };
    let written = users::upsert_in_tx(None, &nu, "node-a");
    assert_eq!(written.handle, "alice");
    assert_eq!(written.global_flags.to_string(), "+a");
    assert_eq!(written.hosts, vec!["*!*@trusted.example"]);
    assert_eq!(written.origin_node, "node-a");

    let fetched = rows::map_user_row(rows::user_row(&written), written.hosts.clone());
    assert_eq!(fetched.id, written.id);
    assert_eq!(fetched.hosts, vec!["*!*@trusted.example"]);
    assert_eq!(fetched, written);
}

#[test]
fn upsert_then_get_by_name() {
    let chan = channels::upsert(
        None,
        &NewChannel {
            name: "#shade-test".into(),
        },
        "node-a",
    );
    let fetched = rows::map_channel_row(rows::channel_row(&chan));
    assert_eq!(fetched.id, chan.id);
    assert_eq!(fetched.name, "#shade-test");
}

#[test]
fn insert_and_get_by_id() {
    let chan = ChannelId::new();
    let nm = NewMask {
        kind: MaskKind::Ban,
        channel_id: Some(chan),
        mask: "*!*@evil.example".into(),
        reason: Some("flooding".into()),
        set_by: Some("alice".into()),
        expires_at: None,
        sticky: false,
    };
    let mask = masks::insert(&nm, "node-a");
    let read = rows::map_mask_row(rows::mask_row(&mask));
    assert_eq!(read.mask, "*!*@evil.example");
    assert_eq!(read.kind, MaskKind::Ban);
    assert_eq!(read.channel_id, Some(chan));
}

#[test]
fn insert_then_round_trip() {
    let entry = AuditEntry::new(now_ms(), "@alice", "user.create", AuditSource::Api)
        .with_target("@bob")
        .with_details(Details::text("role", "user"));
    let read = rows::map_audit_row(rows::audit_row(&entry), entry.details.clone());
    assert_eq!(read.actor, "@alice");
    assert_eq!(read.action, "user.create");
    assert_eq!(read.target.as_deref(), Some("@bob"));
    assert_eq!(
        read.details.get("role"),
        Some(&DetailValue::Text("user".into()))
    );
    assert_eq!(read.source, AuditSource::Api);
}

#[test]
fn user_flags_upsert_and_list() {
    let (chan, user) = (ChannelId::new(), UserId::new());
    let flags: FlagSet = "+ov".parse().unwrap();
    let row = channels::upsert_user_flags(chan, user, flags, "node-a");
    assert_eq!(row.flags, flags);
    let listed = rows::map_user_flags_row(rows::user_flags_row(&row));
    assert_eq!(listed.flags.to_string(), "+ov");

    // Update flags.
    let updated_flags: FlagSet = "+oxv".parse().unwrap();
    let row = channels::upsert_user_flags(chan, user, updated_flags, "node-a");
    let read = rows::map_user_flags_row(rows::user_flags_row(&row));
    assert_eq!(read.flags, updated_flags);
}

#[test]
fn local_upsert_after_remote_keeps_newer_wins_property() {
    let mut nu = new_user("alice");
    let before = users::upsert_in_tx(None, &nu, "node-a");
    nu.comment = Some("updated".into());
    let after = users::upsert_in_tx(Some((before.id, before.created_at, before.last_seen_at)), &nu, "node-a");
    assert_eq!(after.comment.as_deref(), Some("updated"));
    assert!(after.updated_at >= before.updated_at);
}

#[test]
fn flags_are_stamped_with_the_time_given() {
    let f = channels::stamp_user_flags(ChannelId(1), UserId(2), "+o".parse().unwrap(), 9, "n");
    assert_eq!(f.updated_at, 9);
    assert_eq!(f.origin_node, "n");
    assert_eq!(f.flags.to_string(), "+o");
}
