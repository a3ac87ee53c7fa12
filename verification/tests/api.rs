//! The admin API.

use shade::api::admin::{healthz, readyz, ReadinessProbes};
use shade::api::auth::{accept_token, read_bearer, ActorClaim, Bearer, VerifiedActor};
use shade::api::channels::{
    channel_created, check_user_flags, create_channel, delete_channel, delete_channel_user_flags,
    put_channel_settings, put_channel_user_flags, settings_written, user_flags_written,
    SettingsBody, UserFlagsBody,
};
use shade::api::error::ApiError;
use shade::api::login::{check_login, check_login_handle, issue, login};
use shade::api::masks::{
    audit_limit, check_mask, create_channel_mask, default_audit_limit, default_kind, delete_mask,
    mask_created, parse_mask_id, CreateChannelMaskBody,
};
use shade::api::record::{audit, audit_at, deletion, deletion_at, Broadcast};
use shade::api::users::{
    create_user, delete_user, delete_user_password, password_cleared, password_set, patch_user,
    put_user_password, user_created, user_updated, UserPatch,
};
use shade::model::audit::{AuditSource, DetailValue, Details};
use shade::model::auth_token::{AuthToken, DEFAULT_TTL_MS};
use shade::model::channel::{Channel, NewChannel};
use shade::model::flags::FlagSet;
use shade::model::ids::{ChannelId, MaskId, UserId};
use shade::model::mask::MaskKind;
use shade::model::user::{NewUser, User};
use shade::proto::sync::{DeleteKind, UpsertKind};
use shade::store::{channels, masks, users};

fn alice(flags: &str) -> User {
    users::upsert_row(
        None,
        &NewUser {
            handle: "alice".into(),
            password_hash: None,
            is_bot: false,
            global_flags: flags.parse().unwrap(),
            comment: None,
            hosts: vec![],
        },
        UserId(1),
        10,
        "node-test",
    )
}

fn chan() -> Channel {
    channels::upsert_row(
        None,
        &NewChannel { name: "#x".into() },
        ChannelId(2),
        10,
        "node-test",
    )
}

fn bad(reason: &str) -> ApiError {
    ApiError::BadRequest(reason.into())
}

#[test]
fn healthz_always_ok() {
    assert_eq!(healthz(), (200, true));
}

#[test]
fn readyz_503_when_subsystems_down() {
    let (status, body) = readyz(&ReadinessProbes::new());
    assert_eq!(status, 503);
    assert!(!body.ok);
    assert!(!body.irc_connected);
}

#[test]
fn readyz_200_when_all_up() {
    let mut probes = ReadinessProbes::new();
    probes.set_irc_connected(true);
    probes.set_peers_up(true);
    probes.set_store_open(true);
    let (status, body) = readyz(&probes);
    assert_eq!(status, 200);
    assert!(body.ok);
}

#[test]
fn readyz_reflects_runtime_flips() {
    let mut probes = ReadinessProbes::new();
    probes.set_store_open(true);
    assert_eq!(readyz(&probes).0, 503);
    probes.set_irc_connected(true);
    probes.set_peers_up(true);
    let (status, body) = readyz(&probes);
    assert_eq!(status, 200);
    assert!(body.irc_connected);
}

#[test]
fn extension_wins_over_header() {
    let verified = VerifiedActor("verified-actor".into());
    let claim = ActorClaim::from_request(Some(&verified), Some("header-actor"));
    assert_eq!(claim.0.as_deref(), Some("verified-actor"));
    assert!(ActorClaim::is_verified(Some(&verified)));
}

#[test]
fn header_used_when_no_extension() {
    let claim = ActorClaim::from_request(None, Some("alice"));
    assert_eq!(claim.0.as_deref(), Some("alice"));
    assert!(!ActorClaim::is_verified(None));
}

#[test]
fn empty_header_treated_as_absent() {
    assert!(ActorClaim::from_request(None, Some("")).0.is_none());
}

#[test]
fn neither_present_resolves_to_default() {
    let claim = ActorClaim::from_request(None, None);
    assert!(claim.0.is_none());
    assert_eq!(claim.resolve("node-x"), "node-x");
    assert_eq!(claim, ActorClaim::default());
}

#[test]
fn errors_answer_with_status_and_message() {
    assert_eq!(ApiError::NotFound.into_response(), (404, "not found".into()));
    assert_eq!(
        bad("no").into_response(),
        (400, "bad request: no".into())
    );
    assert_eq!(
        ApiError::Unauthorized.into_response(),
        (401, "unauthorized".into())
    );
    let store = ApiError::Store("disk on fire".into());
    assert_eq!(store.into_response(), (500, "internal store error".into()));
    assert_eq!(store.to_string(), "disk on fire");
}

#[test]
fn created_user_is_recorded_and_broadcast() {
    let body = alice("+a").into_new();
    assert_eq!(create_user(&body), Ok(()));
    let user = alice("+a");
    let m = user_created(&user);
    assert_eq!(m.status, 201);
    assert_eq!(m.note.action, "user.upsert");
    assert_eq!(m.note.target.as_deref(), Some("alice"));
    assert_eq!(
        m.note.details.get("id"),
        Some(&DetailValue::Text("00000000000000000000000001".into()))
    );
    assert_eq!(m.broadcast, Broadcast::Upsert(UpsertKind::User(user.clone())));
    assert_eq!(user_updated(&user).note.action, "user.update");
    assert_eq!(user_updated(&user).status, 200);
    let mut blank = alice("").into_new();
    blank.handle = "  ".into();
    assert_eq!(create_user(&blank), Err(bad("handle must not be empty")));
}

#[test]
fn patch_user_flags_diff_applies_to_existing() {
    let patch = UserPatch {
        flags_diff: Some("-x+v".into()),
        ..UserPatch::default()
    };
    let new = patch_user(alice("+ax"), patch).unwrap();
    assert_eq!(new.global_flags.to_string(), "+av");
    assert_eq!(new.handle, "alice");
}

#[test]
fn patch_user_sets_what_is_given() {
    let patch = UserPatch {
        handle: Some("bob".into()),
        password_hash: Some(None),
        is_bot: Some(true),
        global_flags: Some("+o".into()),
        comment: Some(Some("hi".into())),
        hosts: Some(vec!["b!*@*".into()]),
        flags_diff: None,
    };
    let mut user = alice("+ax");
    user.password_hash = Some("old".into());
    let new = patch_user(user, patch).unwrap();
    assert_eq!(new.handle, "bob");
    assert_eq!(new.password_hash, None);
    assert!(new.is_bot);
    assert_eq!(new.global_flags.to_string(), "+o");
    assert_eq!(new.comment.as_deref(), Some("hi"));
    assert_eq!(new.hosts, vec!["b!*@*"]);
    let same = patch_user(alice("+ax"), UserPatch::default()).unwrap();
    assert_eq!(same, alice("+ax").into_new());
}

#[test]
fn patch_user_refuses_bad_flags() {
    let both = UserPatch {
        global_flags: Some("+a".into()),
        flags_diff: Some("+b".into()),
        ..UserPatch::default()
    };
    assert_eq!(
        patch_user(alice(""), both),
        Err(bad("global_flags and flags_diff are mutually exclusive"))
    );
    let odd = UserPatch {
        global_flags: Some("+a!".into()),
        ..UserPatch::default()
    };
    assert_eq!(
        patch_user(alice(""), odd),
        Err(bad("invalid flag character '!'"))
    );
    let odd = UserPatch {
        flags_diff: Some("-1".into()),
        ..UserPatch::default()
    };
    assert_eq!(
        patch_user(alice(""), odd),
        Err(bad("invalid flag character '1'"))
    );
}

#[test]
fn deleting_a_user_that_is_gone_is_not_found() {
    assert_eq!(delete_user(&alice(""), false), Err(ApiError::NotFound));
    let m = delete_user(&alice(""), true).unwrap();
    assert_eq!(m.status, 204);
    assert_eq!(m.note.action, "user.delete");
    assert_eq!(m.broadcast, Broadcast::Delete(DeleteKind::User { id: UserId(1) }));
}

#[test]
fn create_channel_rejects_unprefixed_name() {
    assert_eq!(
        create_channel(&NewChannel {
            name: "noprefix".into()
        }),
        Err(bad("channel name must start with '#' or '&'"))
    );
    assert!(create_channel(&NewChannel { name: "".into() }).is_err());
    assert_eq!(create_channel(&NewChannel { name: "#x".into() }), Ok(()));
    assert_eq!(create_channel(&NewChannel { name: "&x".into() }), Ok(()));
    let m = channel_created(&chan());
    assert_eq!((m.status, m.note.action.as_str()), (201, "channel.upsert"));
    assert_eq!(m.broadcast, Broadcast::Upsert(UpsertKind::Channel(chan())));
    let m = delete_channel(&chan(), true).unwrap();
    assert_eq!((m.status, m.note.action.as_str()), (204, "channel.delete"));
    assert_eq!(delete_channel(&chan(), false), Err(ApiError::NotFound));
}

fn no_change() -> SettingsBody {
    SettingsBody {
        flags: None,
        mode_pls: None,
        mode_mns: None,
        limit_prot: None,
        key_prot: None,
        topic_saved: None,
    }
}

#[test]
fn settings_change_what_is_given() {
    let blank = put_channel_settings(None, ChannelId(2), no_change()).unwrap();
    assert_eq!(blank.channel_id, ChannelId(2));
    assert_eq!(blank.flags, FlagSet::none());
    assert_eq!(blank.limit_prot, None);
    let body = SettingsBody {
        flags: Some("+ax".into()),
        mode_pls: Some("nt".into()),
        limit_prot: Some(Some(50)),
        topic_saved: Some(Some("Hello".into())),
        ..no_change()
    };
    let s = put_channel_settings(Some(blank), ChannelId(2), body).unwrap();
    assert_eq!(s.flags.to_string(), "+ax");
    assert_eq!(s.limit_prot, Some(50));
    let body = SettingsBody {
        limit_prot: Some(None),
        ..no_change()
    };
    let s = put_channel_settings(Some(s), ChannelId(2), body).unwrap();
    assert_eq!(s.limit_prot, None);
    assert_eq!(s.topic_saved.as_deref(), Some("Hello"));
    let body = SettingsBody {
        flags: Some("?".into()),
        ..no_change()
    };
    assert_eq!(
        put_channel_settings(None, ChannelId(2), body),
        Err(bad("invalid flag character '?'"))
    );
    let m = settings_written(&chan(), &s);
    assert_eq!(m.note.action, "channel.settings.update");
    assert_eq!(m.note.details, Details::text("flags", "+ax"));
}

#[test]
fn user_flags_come_in_exactly_one_form() {
    let body = |flags: Option<&str>, diff: Option<&str>| UserFlagsBody {
        flags: flags.map(str::to_owned),
        flags_diff: diff.map(str::to_owned),
    };
    let refused = Err(bad("exactly one of `flags` or `flags_diff` is required"));
    assert_eq!(check_user_flags(&body(None, None)), refused);
    assert_eq!(check_user_flags(&body(Some("+o"), Some("+v"))), refused);
    assert_eq!(check_user_flags(&body(Some("+o"), None)), Ok(()));
    let row = channels::upsert_user_flags(
        ChannelId(2),
        UserId(1),
        "+od".parse().unwrap(),
        "node-test",
    );
    let got = put_channel_user_flags(Some(&row), &body(None, Some("-d+v"))).unwrap();
    assert_eq!(got.to_string(), "+ov");
    let got = put_channel_user_flags(Some(&row), &body(Some("+x"), None)).unwrap();
    assert_eq!(got.to_string(), "+x");
    let got = put_channel_user_flags(None, &body(None, Some("+v"))).unwrap();
    assert_eq!(got.to_string(), "+v");
    assert!(put_channel_user_flags(None, &body(Some("+*"), None)).is_err());
    let m = user_flags_written(&chan(), &alice(""), &row);
    assert_eq!(m.note.target.as_deref(), Some("#x:alice"));
    assert_eq!(m.note.details, Details::text("flags", "+do"));
    let m = delete_channel_user_flags(&chan(), &alice(""), true).unwrap();
    assert_eq!(m.note.action, "channel.user_flags.delete");
    assert_eq!(
        m.broadcast,
        Broadcast::Delete(DeleteKind::ChannelUserFlags {
            channel_id: ChannelId(2),
            user_id: UserId(1)
        })
    );
    assert_eq!(
        delete_channel_user_flags(&chan(), &alice(""), false),
        Err(ApiError::NotFound)
    );
}

fn mask_body(mask: &str) -> CreateChannelMaskBody {
    CreateChannelMaskBody {
        kind: default_kind(),
        mask: mask.into(),
        reason: None,
        set_by: None,
        expires_at: None,
        sticky: false,
    }
}

#[test]
fn masks_are_set_by_the_caller_unless_said_otherwise() {
    assert_eq!(check_mask(&mask_body(" ")), Err(bad("mask must not be empty")));
    assert_eq!(check_mask(&mask_body("*!*@evil.example")), Ok(()));
    let claim = ActorClaim(Some("@alice".into()));
    let nm = create_channel_mask(mask_body("*!*@evil.example"), ChannelId(2), &claim, "node-test");
    assert_eq!(nm.set_by.as_deref(), Some("@alice"));
    assert_eq!(nm.kind, MaskKind::Ban);
    assert_eq!(nm.channel_id, Some(ChannelId(2)));
    let nm = create_channel_mask(mask_body("m"), ChannelId(2), &ActorClaim(None), "node-test");
    assert_eq!(nm.set_by.as_deref(), Some("node-test"));
    let mut body = mask_body("m");
    body.set_by = Some("ops".into());
    let nm = create_channel_mask(body, ChannelId(2), &claim, "node-test");
    assert_eq!(nm.set_by.as_deref(), Some("ops"));
    let written = masks::insert_row(&nm, MaskId(3), 5, "node-test");
    let m = mask_created(&chan(), &written);
    assert_eq!(m.status, 201);
    assert_eq!(m.note.target.as_deref(), Some("#x:m"));
    assert_eq!(
        m.note.details,
        Details::texts("id", "00000000000000000000000003", "kind", "ban")
    );
    assert_eq!(
        parse_mask_id("00000000000000000000000003"),
        Ok(MaskId(3))
    );
    let err = parse_mask_id("nonsense").unwrap_err().to_string();
    assert!(err.starts_with("bad request: invalid mask id: "), "{err}");
    let m = delete_mask(&written, "00000000000000000000000003", true).unwrap();
    assert_eq!(m.note.action, "mask.delete");
    assert_eq!(m.broadcast, Broadcast::Delete(DeleteKind::Mask { id: MaskId(3) }));
    assert_eq!(
        delete_mask(&written, "x", false),
        Err(ApiError::NotFound)
    );
}

#[test]
fn audit_answers_are_bounded() {
    assert_eq!(default_audit_limit(), 100);
    assert_eq!(audit_limit(10), 10);
    assert_eq!(audit_limit(1000), 1000);
    assert_eq!(audit_limit(5000), 1000);
}

#[test]
fn x_actor_header_overrides_default_actor_in_audit() {
    let claim = ActorClaim::from_request(None, Some("@alice"));
    let e = audit(user_created(&alice("")).note, &claim, "node-test");
    assert_eq!(e.actor, "@alice");
    assert_eq!(e.source, AuditSource::Api);
    assert_eq!(e.target.as_deref(), Some("alice"));
    let e = audit(user_created(&alice("")).note, &ActorClaim(None), "node-test");
    assert_eq!(e.actor, "node-test");
    let d = deletion(DeleteKind::User { id: UserId(1) }, "node-test");
    assert_eq!(d.origin_node, "node-test");
    assert!(d.updated_at > 0);
}

#[test]
fn login_issues_token_that_authenticates_subsequent_requests() {
    let nu = put_user_password(alice("+a"), "hunter2").unwrap();
    let mut user = alice("+a");
    user.password_hash = nu.password_hash;
    assert_eq!(check_login_handle("alice"), Ok(()));
    assert_eq!(check_login(Some(&user), "hunter2"), Ok(()));
    let l = login("alice", 1_000, "node-test");
    assert!(!l.token.is_empty());
    assert_eq!(l.expires_at, 1_000 + DEFAULT_TTL_MS);
    assert_eq!(l.note.details, Details::number("expires_at", l.expires_at));
    let header = format!("Bearer {}", l.token);
    assert_eq!(read_bearer(Some(&header)), Bearer::Token(l.row.hash));
    let actor = accept_token(Some(&l.row), 2_000).unwrap();
    assert_eq!(actor.0, "alice");
    // The audit row is tagged with the login handle, not the node.
    let claim = ActorClaim::from_request(Some(&actor), None);
    let e = audit(channel_created(&chan()).note, &claim, "node-test");
    assert_eq!(e.actor, "alice");
    // Expired tokens do not count.
    assert_eq!(accept_token(Some(&l.row), l.expires_at), Err(ApiError::Unauthorized));
}

#[test]
fn issued_token_is_what_its_secret_says() {
    let token = AuthToken::from_secret([0; 32]);
    let l = issue(&token, "bob", 5, "n");
    assert_eq!(l.token, "A".repeat(43));
    assert_eq!(l.row.hash, token.hash());
    assert_eq!(l.row.hash.as_bytes()[0], 0x66);
    assert_eq!(l.note.details, Details::number("expires_at", 3_600_005));
}

#[test]
fn login_rejects_wrong_password() {
    let mut user = alice("");
    user.password_hash = put_user_password(alice(""), "secret").unwrap().password_hash;
    assert_eq!(check_login(Some(&user), "wrong"), Err(ApiError::Unauthorized));
    assert_eq!(check_login(None, "secret"), Err(ApiError::Unauthorized));
    user.password_hash = Some("not a phc string".into());
    assert_eq!(check_login(Some(&user), "secret"), Err(ApiError::Unauthorized));
    assert_eq!(check_login_handle(" "), Err(bad("handle must not be empty")));
}

#[test]
fn login_rejects_user_with_no_password_set() {
    assert_eq!(
        check_login(Some(&alice("")), "anything"),
        Err(ApiError::Unauthorized)
    );
}

#[test]
fn invalid_bearer_token_returns_401() {
    assert_eq!(read_bearer(Some("Bearer not-a-real-token")), Bearer::Malformed);
    assert_eq!(read_bearer(Some("Basic abc")), Bearer::Absent);
    assert_eq!(read_bearer(None), Bearer::Absent);
    assert_eq!(accept_token(None, 0), Err(ApiError::Unauthorized));
}

#[test]
fn delete_password_disables_login() {
    let mut user = alice("");
    user.password_hash = put_user_password(alice(""), "secret").unwrap().password_hash;
    let cleared = delete_user_password(user).unwrap();
    let user = users::upsert_row(Some((UserId(1), 10, None)), &cleared, UserId(9), 20, "node-test");
    assert_eq!(check_login(Some(&user), "secret"), Err(ApiError::Unauthorized));
    assert_eq!(password_cleared(&user).note.action, "user.password.clear");
    assert_eq!(password_set(&user).note.action, "user.password.set");
    assert_eq!(password_set(&user).status, 204);
    assert_eq!(delete_user_password(user), Err(ApiError::NotFound));
    assert_eq!(
        put_user_password(alice(""), ""),
        Err(bad("password must not be empty"))
    );
}

#[test]
fn records_are_stamped_with_the_time_given() {
    let claim = ActorClaim::default();
    let e = audit_at(channel_created(&chan()).note, &claim, "node-test", 123);
    assert_eq!(e.ts, 123);
    assert_eq!(e.actor, "node-test");
    let d = deletion_at(DeleteKind::User { id: UserId(1) }, "node-test", 456);
    assert_eq!(d.updated_at, 456);
    assert_eq!(d.origin_node, "node-test");
}
