//! Op cookies.

use shade::model::cookies::{
    derive_channel_key, make, verify, Cookie, CookieError, ReplayGuard, MAX_FUTURE_SKEW_MS,
    MAX_PAST_AGE_MS,
};
use shade::model::time::now_ms;

#[test]
fn cookie_round_trips_through_bytes() {
    let c = Cookie::new("shade-iad-01", "alice");
    let bytes = c.to_bytes().unwrap();
    let back = Cookie::from_bytes(&bytes).unwrap();
    assert_eq!(c, back);
}

#[test]
fn cookie_to_bytes_rejects_oversize_strings() {
    let c = Cookie {
        request_id: 0,
        ts_ms: 0,
        requester_node_id: "x".repeat(256),
        target_nick: "y".into(),
    };
    assert!(c.to_bytes().is_none());
}

#[test]
fn make_and_verify_round_trip_with_correct_key() {
    let psk = b"a-shared-mesh-psk-32-bytes-or-more.";
    let key = derive_channel_key(psk, "#shade-test");
    let cookie = Cookie::new("shade-iad-01", "alice");
    let wire = make(&cookie, &key).unwrap();
    let mut rg = ReplayGuard::new();
    let parsed = verify(&wire, &key, &mut rg).unwrap();
    assert_eq!(parsed.request_id, cookie.request_id);
    assert_eq!(parsed.target_nick, "alice");
}

#[test]
fn verify_rejects_wrong_channel_key() {
    let psk = b"shared-psk-of-sufficient-length...";
    let key_a = derive_channel_key(psk, "#chan-a");
    let key_b = derive_channel_key(psk, "#chan-b");
    let wire = make(&Cookie::new("node", "alice"), &key_a).unwrap();
    let mut rg = ReplayGuard::new();
    let err = verify(&wire, &key_b, &mut rg).unwrap_err();
    assert_eq!(err, CookieError::BadMac);
}

#[test]
fn verify_rejects_replay() {
    let psk = b"a-shared-mesh-psk-32-bytes-or-more.";
    let key = derive_channel_key(psk, "#shade-test");
    let wire = make(&Cookie::new("node", "alice"), &key).unwrap();
    let mut rg = ReplayGuard::new();
    verify(&wire, &key, &mut rg).expect("first time");
    let err = verify(&wire, &key, &mut rg).unwrap_err();
    assert_eq!(err, CookieError::Replay);
}

#[test]
fn verify_rejects_stale_cookie() {
    let psk = b"a-shared-mesh-psk-32-bytes-or-more.";
    let key = derive_channel_key(psk, "#shade-test");
    let mut cookie = Cookie::new("node", "alice");
    cookie.ts_ms = now_ms() - MAX_PAST_AGE_MS - 1_000;
    let wire = make(&cookie, &key).unwrap();
    let mut rg = ReplayGuard::new();
    let err = verify(&wire, &key, &mut rg).unwrap_err();
    assert!(matches!(err, CookieError::TimestampOutOfBounds { .. }));
}

#[test]
fn verify_rejects_future_cookie() {
    let psk = b"a-shared-mesh-psk-32-bytes-or-more.";
    let key = derive_channel_key(psk, "#shade-test");
    let mut cookie = Cookie::new("node", "alice");
    cookie.ts_ms = now_ms() + MAX_FUTURE_SKEW_MS + 1_000;
    let wire = make(&cookie, &key).unwrap();
    let mut rg = ReplayGuard::new();
    let err = verify(&wire, &key, &mut rg).unwrap_err();
    assert!(matches!(err, CookieError::TimestampOutOfBounds { .. }));
}

#[test]
fn verify_rejects_tampered_payload() {
    let psk = b"a-shared-mesh-psk-32-bytes-or-more.";
    let key = derive_channel_key(psk, "#shade-test");
    let wire = make(&Cookie::new("node", "alice"), &key).unwrap();
    // Flip a bit in the payload portion (before the `.`).
    let dot = wire.find('.').unwrap();
    let mut tampered: Vec<u8> = wire.as_bytes().to_vec();
    // 'a' XOR 1 = 'b' — keeps it base64-valid even after the flip
    // (URL_SAFE_NO_PAD allows letters); shouldn't validate anyway.
    tampered[dot - 1] ^= 0b0000_0001;
    let tampered = String::from_utf8(tampered).unwrap();
    let mut rg = ReplayGuard::new();
    let err = verify(&tampered, &key, &mut rg).unwrap_err();
    assert!(matches!(
        err,
        CookieError::BadMac | CookieError::Malformed(_)
    ));
}

#[test]
fn verify_rejects_malformed_wire() {
    let key = [0u8; 32];
    let mut rg = ReplayGuard::new();
    for bad in ["", ".", "abc", "abc.def"] {
        assert!(verify(bad, &key, &mut rg).is_err(), "bad: {bad:?}");
    }
}

#[test]
fn replay_guard_evicts_oldest_when_full() {
    let mut rg = ReplayGuard::with_capacity(2);
    let a = ulid::Ulid::new().0;
    let b = ulid::Ulid::new().0;
    let c = ulid::Ulid::new().0;
    assert!(rg.observe(a));
    assert!(rg.observe(b));
    assert!(rg.observe(c)); // evicts a
    assert!(rg.observe(a)); // a should be considered fresh again
}

#[test]
fn replay_guard_holds_its_capacity() {
    let mut rg = ReplayGuard::with_capacity(2);
    assert!(rg.observe(1));
    assert!(rg.observe(2));
    assert!(!rg.observe(1));
    assert!(!rg.observe(2));
    assert!(rg.observe(3));
    assert!(!rg.observe(2));
    assert!(rg.observe(1));
    let mut none = ReplayGuard::with_capacity(0);
    assert!(none.observe(1));
    assert!(none.observe(1));
}

#[test]
fn derive_channel_key_is_per_channel() {
    let psk = b"some-mesh-psk";
    let a = derive_channel_key(psk, "#a");
    let b = derive_channel_key(psk, "#b");
    assert_ne!(a, b);
}

#[test]
fn derive_channel_key_is_deterministic() {
    let psk = b"some-mesh-psk";
    assert_eq!(
        derive_channel_key(psk, "#shade-test"),
        derive_channel_key(psk, "#shade-test")
    );
}

#[test]
fn cookies_carry_the_time_given() {
    let c = Cookie::made_at(7, 1_000, "node", "nick");
    assert_eq!(c.request_id, 7);
    assert_eq!(c.ts_ms, 1_000);
    assert_eq!(c.requester_node_id, "node");
    assert_eq!(c.target_nick, "nick");
    assert!(ReplayGuard::default().observe(7));
}
