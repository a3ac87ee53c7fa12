//! Watching ops.

use shade::model::cookies::{derive_channel_key, make, Cookie};
use shade::node::op_observer::{
    extract_cookie_wire, ObserverContext, OpObserver, MASS_OP_THRESHOLD, MASS_OP_WINDOW_MS,
};

fn ctx(psk: &[u8]) -> ObserverContext {
    ObserverContext {
        node_id: "node-test".into(),
        mesh_psk: psk.to_vec(),
    }
}

fn make_cookie(channel: &str, target_nick: &str, psk: &[u8]) -> String {
    let key = derive_channel_key(psk, channel);
    let cookie = Cookie::new("node-issuer", target_nick);
    make(&cookie, &key).unwrap()
}

#[test]
fn cookie_notice_within_grace_window_certifies_op() {
    let psk = b"the-shared-mesh-psk";
    let mut obs = OpObserver::new();
    obs.record_op("#c", "alice", "shade-iad-01!u@h", 1_000);
    let wire = make_cookie("#c", "alice", psk);
    let ok = obs.record_cookie_notice("#c", &wire, &ctx(psk), 1_500);
    assert!(ok, "cookie should certify the pending op");
}

#[test]
fn cookie_notice_after_grace_does_not_match() {
    let psk = b"the-shared-mesh-psk";
    let mut obs = OpObserver::new();
    obs.record_op("#c", "alice", "shade-iad-01!u@h", 1_000);
    let wire = make_cookie("#c", "alice", psk);
    // 6 seconds later — beyond COOKIE_GRACE_MS = 5s. Sweep happens
    // first, op is dropped.
    let ok = obs.record_cookie_notice("#c", &wire, &ctx(psk), 7_000);
    assert!(!ok);
}

#[test]
fn cookie_with_wrong_psk_is_rejected() {
    let mut obs = OpObserver::new();
    obs.record_op("#c", "alice", "src", 1_000);
    let wire = make_cookie("#c", "alice", b"key-a");
    let ok = obs.record_cookie_notice("#c", &wire, &ctx(b"key-b"), 1_500);
    assert!(!ok);
}

#[test]
fn unrelated_cookie_does_not_consume_pending_op() {
    let psk = b"some-psk";
    let mut obs = OpObserver::new();
    obs.record_op("#c", "alice", "src", 1_000);
    let wire = make_cookie("#c", "bob", psk); // wrong target
    let ok = obs.record_cookie_notice("#c", &wire, &ctx(psk), 1_500);
    assert!(!ok);
    // Pending op is still there.
    assert_eq!(obs.pending().len(), 1);
}

#[test]
fn mass_op_counter_trips_at_threshold() {
    let mut obs = OpObserver::new();
    // 5 ops within 10s from the same source → at threshold.
    for i in 0..MASS_OP_THRESHOLD {
        obs.record_op(
            "#c",
            &format!("u{i}"),
            "src!u@h",
            1_000 + i64::try_from(i).unwrap() * 100,
        );
    }
    // We only assert the structural state; the warn! is just logged.
    assert_eq!(
        obs.op_history()
            .iter()
            .filter(|e| e.source == "src!u@h")
            .count(),
        MASS_OP_THRESHOLD
    );
}

#[test]
fn sweep_evicts_stale_pending_ops_and_trims_history() {
    let mut obs = OpObserver::new();
    obs.record_op("#c", "alice", "src", 0);
    obs.record_op("#c", "bob", "src", 0);
    // Past the grace + window; both should drop.
    obs.maybe_sweep(MASS_OP_WINDOW_MS + 1_000);
    assert!(obs.pending().is_empty());
    assert!(obs.op_history().is_empty());
}

#[test]
fn extract_cookie_wire_handles_leading_whitespace_and_prefix() {
    assert_eq!(extract_cookie_wire("shade-cookie/abc.def"), Some("abc.def"));
    // `trim()` runs first, so leading + trailing whitespace are
    // stripped before the prefix match.
    assert_eq!(
        extract_cookie_wire("  shade-cookie/abc.def "),
        Some("abc.def")
    );
    assert_eq!(extract_cookie_wire("not a cookie"), None);
}
