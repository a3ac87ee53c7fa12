//! Record types.

use shade::model::audit::{
    audit_source_of, audit_source_str, AuditEntry, AuditSource, DetailValue, Details,
};
use shade::model::ids::{AuditId, ChannelId, MaskId, UserId};
use shade::model::mask::MaskKind;
use shade::model::time::{now_second, second_of};
use std::time::{Duration, UNIX_EPOCH};

#[test]
fn audit_source_serializes_as_lowercase_string() {
    assert_eq!(audit_source_str(AuditSource::Api), "api");
    assert_eq!(audit_source_of("mesh"), AuditSource::Mesh);
}

#[test]
fn audit_entry_builder_sets_target_and_details() {
    let entry = AuditEntry::new(1_700_000_000_000, "@alice", "mask.add", AuditSource::Api)
        .with_target("#shade-test")
        .with_details(Details::text("mask", "*!*@evil.example"));
    assert_eq!(entry.actor, "@alice");
    assert_eq!(entry.target.as_deref(), Some("#shade-test"));
    assert_eq!(
        entry.details.get("mask"),
        Some(&DetailValue::Text("*!*@evil.example".into()))
    );
    assert_eq!(entry.source, AuditSource::Api);
}


#[test]
fn channel_id_round_trips_through_bytes() {
    let id = ChannelId::new();
    let back = ChannelId::from_bytes(id.as_bytes());
    assert_eq!(id, back);
}


#[test]
fn kind_round_trips_through_i64() {
    for kind in [MaskKind::Ban, MaskKind::Exempt, MaskKind::Invite] {
        assert_eq!(MaskKind::from_i64(kind.as_i64()), Some(kind));
    }
    assert_eq!(MaskKind::from_i64(99), None);
}

#[test]
fn kind_serializes_as_lowercase_string() {
    assert_eq!(MaskKind::Ban.name(), "ban");
    assert_eq!(MaskKind::Exempt.name(), "exempt");
}

#[test]
fn user_id_round_trips_through_bytes() {
    let id = UserId::new();
    let restored = UserId::from_bytes(id.as_bytes());
    assert_eq!(id, restored);
}

#[test]
fn user_id_serializes_as_string() {
    let id = UserId::from_bytes([0; 16]);
    // 26 characters of Crockford base32.
    assert_eq!(id.to_string().len(), 26);
    assert_eq!(id.to_string(), "00000000000000000000000000");
}

#[test]
fn details_can_be_any_json() {
    let details = Details::Json("[1,{\"a\":null}]".into());
    let e = AuditEntry::new(1, "system", "node.start", AuditSource::System)
        .with_details(details.clone());
    assert_eq!(e.details, details);
    assert_eq!(e.details.get("a"), None);
}

#[test]
fn identifiers_carry_the_time_they_were_made() {
    let at = |ms| UNIX_EPOCH + Duration::from_millis(ms);
    let a = AuditId::made_at(at(1_700_000_000_000));
    let b = AuditId::made_at(at(1_700_000_000_001));
    assert_eq!(a.0 >> 80, 1_700_000_000_000);
    assert!(a.0 < b.0);
    assert_eq!(UserId::made_at(at(5)).0 >> 80, 5);
    assert_eq!(ChannelId::made_at(at(6)).0 >> 80, 6);
    assert_eq!(MaskId::made_at(at(7)).0 >> 80, 7);
    // Before 1970 counts as 1970, and 48 bits of milliseconds are kept.
    assert_eq!(AuditId::made_at(UNIX_EPOCH - Duration::from_secs(1)).0 >> 80, 0);
    assert_eq!(AuditId::made_at(at((1 << 48) + 3)).0 >> 80, 3);
    for id in [AuditId::new().0, UserId::default().0, MaskId::new().0] {
        assert!(id >> 80 > 1_735_689_600_000);
    }
    let e = AuditEntry::new(1, "system", "node.start", AuditSource::System);
    assert!(e.id.0 >> 80 > 1_735_689_600_000);
}

#[test]
fn identifiers_are_spelt_in_base_32() {
    assert_eq!(MaskId(0).to_string(), "0".repeat(26));
    assert_eq!(MaskId(u128::MAX).to_string(), "7ZZZZZZZZZZZZZZZZZZZZZZZZZ");
    let text = "01D39ZY06FGSCTVN4T2V9PKHFZ";
    let id = MaskId::parse(text).unwrap();
    assert_eq!(id.to_string(), text);
    assert_eq!(UserId(id.0).to_string(), text);
    assert_eq!(ChannelId(id.0).to_string(), text);
    assert_eq!(MaskId::parse(&text.to_lowercase()), Ok(id));
    assert_eq!(MaskId(0x1f).to_string().chars().last(), Some('Z'));
    assert_eq!(MaskId::parse("01D39"), Err("invalid length".into()));
    assert_eq!(
        MaskId::parse("01D39ZY06FGSCTVN4T2V9PKHFU"),
        Err("invalid character".into())
    );
    // Twenty-six bytes, but not of the alphabet.
    assert_eq!(
        MaskId::parse("\u{e9}D39ZY06FGSCTVN4T2V9PKHFZ"),
        Err("invalid character".into())
    );
    // Of more than 128 bits the last ones count.
    assert_eq!(MaskId::parse("80000000000000000000000001"), Ok(MaskId(1)));
}

#[test]
fn seconds_are_counted_both_ways() {
    let ns = Duration::from_nanos;
    assert_eq!(second_of(UNIX_EPOCH), 0);
    assert_eq!(second_of(UNIX_EPOCH + ns(1_999_999_999)), 1);
    assert_eq!(second_of(UNIX_EPOCH - ns(1)), -1);
    assert_eq!(second_of(UNIX_EPOCH - ns(1_000_000_000)), -1);
    assert_eq!(second_of(UNIX_EPOCH - ns(1_000_000_001)), -2);
    assert!(now_second() > 1_735_689_600);
}
