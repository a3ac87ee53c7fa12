//! Bearer tokens, passwords and the clock.

use base64::Engine;
use shade::model::auth_token::{AuthToken, AuthTokenError};
use shade::model::password::{hash, hash_with_salt, verify, PasswordError};
use shade::model::time::now_ms;

#[test]
fn random_tokens_differ() {
    let a = AuthToken::random();
    let b = AuthToken::random();
    assert_ne!(a.secret(), b.secret());
    assert_ne!(a.hash(), b.hash());
}

#[test]
fn wire_round_trip_preserves_hash() {
    let t = AuthToken::random();
    let wire = t.to_wire();
    let parsed = AuthToken::from_wire(&wire).unwrap();
    assert_eq!(t.hash(), parsed.hash());
}

#[test]
fn from_wire_rejects_wrong_length() {
    // 16-byte payload, not 32.
    let short = base64::engine::general_purpose::URL_SAFE_NO_PAD.encode([0u8; 16]);
    let err = AuthToken::from_wire(&short).err().unwrap();
    assert!(matches!(err, AuthTokenError::WrongLength));
}

#[test]
fn from_wire_rejects_garbage() {
    let err = AuthToken::from_wire("!!! not base64").err().unwrap();
    assert!(matches!(err, AuthTokenError::Decode(_)));
}

#[test]
fn round_trip_matches() {
    let h = hash("correct horse battery staple").unwrap();
    assert!(verify("correct horse battery staple", &h).unwrap());
}

#[test]
fn wrong_password_does_not_match() {
    let h = hash("hunter2").unwrap();
    assert!(!verify("hunter3", &h).unwrap());
}

#[test]
fn fresh_hashes_have_distinct_salts() {
    let a = hash("same").unwrap();
    let b = hash("same").unwrap();
    assert_ne!(a, b, "salt should make repeat hashes differ");
}

#[test]
fn malformed_stored_hash_errors() {
    let err = verify("anything", "not a phc string").unwrap_err();
    assert!(matches!(err, PasswordError::InvalidHash(_)));
}

#[test]
fn hashes_carry_their_costs() {
    let h = hash("x").unwrap();
    assert!(h.starts_with("$argon2id$v=19$m=65536,t=3,p=1$"), "got: {h}");
    let salt = h.split('$').nth(4).unwrap();
    assert_eq!(salt.len(), 22);
    assert!(salt.ends_with(['A', 'Q', 'g', 'w']), "got: {salt}");
    assert!(matches!(hash_with_salt("x", ""), Err(PasswordError::Argon2(_))));
    // The last one given counts.
    let twice = h.replace("p=1", "p=999999999,p=1");
    assert_eq!(verify("x", &twice), Ok(true));
}

#[test]
fn lanes_that_cannot_be_counted_are_an_error() {
    let h = hash_with_salt("x", "c29tZXNhbHRzb21lc2FsdA").unwrap();
    assert_eq!(verify("x", &h), Ok(true));
    let many = h.replace("p=1", "p=536870912");
    assert_eq!(
        verify("x", &many),
        Err(PasswordError::Argon2(
            "invalid parameter value: value to long".into()
        ))
    );
    let fewer = h.replace("p=1", "p=536870911");
    assert_eq!(
        verify("x", &fewer).unwrap_err().to_string(),
        "argon2: invalid parameter value: value to short"
    );
    // Nothing to compare with.
    assert_eq!(verify("x", "$argon2id$v=19$m=8,t=1,p=999999999"), Ok(false));
}

#[test]
fn now_ms_is_positive_and_above_2025_epoch() {
    // 2025-01-01 in ms.
    let lower = 1_735_689_600_000_i64;
    let now = now_ms();
    assert!(
        now > lower,
        "now_ms()={now} is below the 2025 epoch — clock is wrong",
    );
}
