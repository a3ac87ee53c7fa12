//! Merging rows of other nodes.

use shade::model::channel::{Channel, ChannelSettings, ChannelUserFlags};
use shade::model::flags::FlagSet;
use shade::model::ids::{ChannelId, MaskId, UserId};
use shade::model::mask::{Mask, MaskKind, NewMask};
use shade::model::user::User;
use shade::store::gossip::{
    apply_channel_delete, apply_channel_settings_upsert, apply_channel_upsert,
    apply_channel_user_flags_delete, apply_channel_user_flags_upsert, apply_mask_delete,
    apply_mask_upsert, apply_user_delete, apply_user_upsert, wins, Tombstone,
};
use shade::store::masks;

fn alice(updated_at: i64, origin: &str) -> User {
    User {
        id: UserId::from_bytes([1; 16]),
        handle: "alice".into(),
        password_hash: None,
        is_bot: false,
        global_flags: FlagSet::none(),
        comment: None,
        hosts: vec!["alice!*@*".into()],
        created_at: 0,
        updated_at,
        last_seen_at: None,
        origin_node: origin.into(),
    }
}

/// A user table with room for one row.
#[derive(Default)]
struct Held {
    row: Option<User>,
}

impl Held {
    fn upsert(&mut self, u: &User) -> bool {
        match apply_user_upsert(self.row.as_ref(), u) {
            Some(row) => {
                self.row = Some(row);
                true
            }
            None => false,
        }
    }

    fn delete(&mut self, at: i64, origin: &str) -> bool {
        let gone = apply_user_delete(self.row.as_ref(), at, origin);
        if gone {
            self.row = None;
        }
        gone
    }
}

#[test]
fn user_upsert_newer_remote_wins() {
    let mut store = Held::default();
    assert!(store.upsert(&alice(100, "node-a")));
    assert!(store.upsert(&alice(200, "node-b")));
    let stored = store.row.unwrap();
    assert_eq!(stored.updated_at, 200);
    assert_eq!(stored.origin_node, "node-b");
}

#[test]
fn user_upsert_older_remote_loses() {
    let mut store = Held::default();
    assert!(store.upsert(&alice(200, "node-b")));
    assert!(!store.upsert(&alice(100, "node-a")));
}

#[test]
fn user_upsert_tie_broken_by_lex_smaller_origin() {
    let mut store = Held::default();
    assert!(store.upsert(&alice(100, "node-b")));
    // Same updated_at, lex-smaller origin: should win.
    assert!(store.upsert(&alice(100, "node-a")));
    assert_eq!(store.row.unwrap().origin_node, "node-a");
}

#[test]
fn user_delete_lww_gated() {
    let mut store = Held::default();
    assert!(store.upsert(&alice(200, "node-a")));
    // Stale delete loses.
    assert!(!store.delete(100, "node-b"));
    assert!(store.row.is_some());
    // Newer delete wins.
    assert!(store.delete(300, "node-b"));
    assert!(store.row.is_none());
}

#[test]
fn user_upsert_keeps_what_the_local_row_knows() {
    let mut local = alice(100, "node-a");
    local.created_at = 7;
    local.last_seen_at = Some(50);
    let mut remote = alice(200, "node-b");
    remote.created_at = 9;
    remote.last_seen_at = Some(60);
    let merged = apply_user_upsert(Some(&local), &remote).unwrap();
    assert_eq!(merged.created_at, 7);
    assert_eq!(merged.last_seen_at, Some(50));
    assert_eq!(merged.origin_node, "node-b");
    let fresh = apply_user_upsert(None, &remote).unwrap();
    assert_eq!(fresh.created_at, 9);
    assert_eq!(fresh.last_seen_at, None);
}

#[test]
fn equal_stamps_do_not_win() {
    assert!(!wins(5, "node-a", 5, "node-a"));
    assert!(wins(5, "node-a", 5, "node-b"));
    assert!(!wins(5, "node-b", 5, "node-a"));
    assert!(wins(6, "node-b", 5, "node-a"));
    assert!(!wins(4, "node-a", 5, "node-b"));
}

#[test]
fn mask_upsert_loses_to_existing_tombstone() {
    // A local insert and delete leave a tombstone.
    let mask = masks::insert(
        &NewMask {
            kind: MaskKind::Ban,
            channel_id: Some(ChannelId::from_bytes([3; 16])),
            mask: "*!*@x".into(),
            reason: None,
            set_by: None,
            expires_at: None,
            sticky: false,
        },
        "node-a",
    );
    let tombstone = Tombstone {
        deleted_at: mask.updated_at,
        origin_node: "node-a".into(),
    };

    // An incoming remote mask upsert with an older updated_at must lose to the
    // tombstone.
    let mut stale = mask.clone();
    stale.updated_at = mask.updated_at - 1;
    stale.origin_node = "node-b".into();
    assert!(apply_mask_upsert(None, Some(&tombstone), &stale).is_none());

    // A newer remote mask upsert defeats the tombstone.
    let mut fresh = mask.clone();
    fresh.updated_at = i64::MAX;
    fresh.origin_node = "node-b".into();
    assert_eq!(apply_mask_upsert(None, Some(&tombstone), &fresh), Some(fresh));
}

fn a_mask(updated_at: i64, origin: &str) -> Mask {
    Mask {
        id: MaskId::from_bytes([9; 16]),
        kind: MaskKind::Ban,
        channel_id: None,
        mask: "*!*@x".into(),
        reason: None,
        set_by: None,
        set_at: 0,
        expires_at: None,
        sticky: false,
        updated_at,
        origin_node: origin.into(),
    }
}

/// What a store holds under one mask id.
#[derive(Clone, Debug, PartialEq, Default)]
struct MaskSlot {
    row: Option<Mask>,
    tombstone: Option<Tombstone>,
}

impl MaskSlot {
    fn upsert(&mut self, m: &Mask) {
        if let Some(row) = apply_mask_upsert(self.row.as_ref(), self.tombstone.as_ref(), m) {
            self.row = Some(row);
        }
    }

    fn delete(&mut self, at: i64, origin: &str) -> bool {
        let d = apply_mask_delete(self.row.as_ref(), self.tombstone.as_ref(), at, origin);
        let changes = d.changes();
        if d.removes_row {
            self.row = None;
        }
        if d.tombstone.is_some() {
            self.tombstone = d.tombstone;
        }
        changes
    }
}

#[test]
fn mask_delete_and_upsert_commute() {
    for (at, origin) in [(99, "node-a"), (100, "node-a"), (100, "node-c"), (101, "node-z")] {
        let m = a_mask(100, "node-b");
        let mut one = MaskSlot::default();
        one.upsert(&m);
        one.delete(at, origin);
        let mut other = MaskSlot::default();
        other.delete(at, origin);
        other.upsert(&m);
        assert_eq!(one, other, "delete at {at} by {origin}");
    }
}

#[test]
fn repeated_mask_delete_reports_no_change() {
    let mut slot = MaskSlot::default();
    slot.upsert(&a_mask(100, "node-b"));
    assert!(slot.delete(200, "node-a"));
    assert!(slot.row.is_none());
    assert!(!slot.delete(200, "node-a"));
    assert!(!slot.delete(150, "node-a"));
}

#[test]
fn channel_settings_lww_round_trip() {
    let s = ChannelSettings {
        channel_id: ChannelId::from_bytes([2; 16]),
        flags: "+ax".parse().unwrap(),
        mode_pls: "ntC".into(),
        mode_mns: String::new(),
        limit_prot: None,
        key_prot: None,
        topic_saved: None,
        updated_at: 200,
        origin_node: "node-b".into(),
    };
    let held = apply_channel_settings_upsert(None, &s).unwrap();
    let mut stale = s.clone();
    stale.updated_at = 100;
    stale.flags = FlagSet::none();
    assert!(apply_channel_settings_upsert(Some(&held), &stale).is_none());
    assert_eq!(held.flags.to_string(), "+ax", "newer remote should be intact");
}

#[test]
fn channel_and_flag_rows_follow_the_same_rule() {
    let c = Channel {
        id: ChannelId::from_bytes([1; 16]),
        name: "#x".into(),
        created_at: 1,
        updated_at: 100,
        origin_node: "node-b".into(),
    };
    let mut newer = c.clone();
    newer.updated_at = 101;
    newer.created_at = 55;
    newer.name = "#X".into();
    let merged = apply_channel_upsert(Some(&c), &newer).unwrap();
    assert_eq!(merged.name, "#X");
    assert_eq!(merged.created_at, 1);
    assert!(apply_channel_upsert(Some(&newer), &c).is_none());
    assert!(apply_channel_delete(Some(&c), 100, "node-a"));
    assert!(!apply_channel_delete(Some(&c), 100, "node-c"));
    assert!(!apply_channel_delete(None, 100, "node-a"));

    let f = ChannelUserFlags {
        channel_id: c.id,
        user_id: UserId::from_bytes([4; 16]),
        flags: "+o".parse().unwrap(),
        updated_at: 10,
        origin_node: "n".into(),
    };
    let mut g = f.clone();
    g.updated_at = 11;
    g.flags = "+v".parse().unwrap();
    assert_eq!(apply_channel_user_flags_upsert(Some(&f), &g), Some(g.clone()));
    assert_eq!(apply_channel_user_flags_upsert(Some(&g), &f), None);
    assert!(apply_channel_user_flags_delete(Some(&f), 11, "n"));
    assert!(!apply_channel_user_flags_delete(Some(&f), 9, "n"));
}

#[derive(Clone, Copy)]
enum Event {
    Upsert(i64, &'static str),
    Delete(i64, &'static str),
}

#[test]
fn masks_converge_whatever_the_order() {
    let events = [
        Event::Upsert(100, "node-b"),
        Event::Delete(100, "node-a"),
        Event::Upsert(101, "node-c"),
        Event::Delete(99, "node-z"),
    ];
    let mut seen: Vec<MaskSlot> = vec![];
    for i in 0..4 {
        for j in 0..4 {
            for k in 0..4 {
                for l in 0..4 {
                    let mut order = vec![i, j, k, l];
                    order.sort();
                    order.dedup();
                    if order.len() != 4 {
                        continue;
                    }
                    let mut slot = MaskSlot::default();
                    // Every event comes twice.
                    for n in [i, j, k, l, l, k, j, i] {
                        match events[n] {
                            Event::Upsert(at, origin) => slot.upsert(&a_mask(at, origin)),
                            Event::Delete(at, origin) => {
                                slot.delete(at, origin);
                            }
                        }
                    }
                    seen.push(slot);
                }
            }
        }
    }
    assert_eq!(seen.len(), 24);
    for slot in &seen {
        assert_eq!(slot, &seen[0]);
    }
    assert_eq!(seen[0].row, Some(a_mask(101, "node-c")));
    assert_eq!(
        seen[0].tombstone,
        Some(Tombstone {
            deleted_at: 100,
            origin_node: "node-a".into()
        })
    );
}

#[test]
fn newest_user_is_held_whatever_the_order() {
    let rows = [
        alice(100, "node-b"),
        alice(300, "node-c"),
        alice(300, "node-b"),
        alice(200, "node-a"),
    ];
    for start in 0..4 {
        let mut store = Held::default();
        for n in 0..8 {
            store.upsert(&rows[(start + 3 * n) % 4]);
        }
        let held = store.row.unwrap();
        assert_eq!((held.updated_at, held.origin_node.as_str()), (300, "node-b"));
    }
}
