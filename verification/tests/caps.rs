//! Capability negotiation.

use shade::ircd::caps::{CapAction, CapNegotiation};
use shade::ircd::parser::parse_str;

fn negotiate_with(desired: &[&str]) -> CapNegotiation {
    CapNegotiation::new(desired.iter().map(|s| (*s).to_string()).collect())
}

#[test]
fn initial_command_is_cap_ls_302() {
    assert_eq!(CapNegotiation::initial_command(), "CAP LS 302");
}

#[test]
fn ls_picks_intersection_and_requests() {
    let mut n = negotiate_with(&["sasl", "server-time", "multi-prefix", "batch"]);
    let msg = parse_str(":server CAP * LS :sasl server-time multi-prefix away-notify").unwrap();
    let actions = n.handle(&msg);

    assert_eq!(actions.len(), 1);
    match &actions[0] {
        CapAction::Send(line) => {
            // We REQ only what server has AND we want; alphabetical.
            assert!(line.starts_with("CAP REQ :"));
            let req = line.trim_start_matches("CAP REQ :");
            let mut got: Vec<&str> = req.split(' ').collect();
            got.sort_unstable();
            assert_eq!(got, vec!["multi-prefix", "sasl", "server-time"]);
        }
        other => panic!("unexpected action: {other:?}"),
    }
    assert_eq!(n.available_caps().len(), 4);
}

#[test]
fn ls_with_values_strips_them() {
    let mut n = negotiate_with(&["sts"]);
    let msg = parse_str(":server CAP * LS :sts=duration=2592000,port=6697").unwrap();
    let _ = n.handle(&msg);
    assert!(n.available_caps().contains("sts"));
}

#[test]
fn multiline_ls_accumulates_then_requests() {
    let mut n = negotiate_with(&["sasl", "server-time"]);

    let msg1 = parse_str(":server CAP * LS * :sasl").unwrap();
    let actions1 = n.handle(&msg1);
    assert!(
        actions1.is_empty(),
        "no actions while LS continuation pending"
    );

    let msg2 = parse_str(":server CAP * LS :server-time multi-prefix").unwrap();
    let actions2 = n.handle(&msg2);
    assert_eq!(actions2.len(), 1);
    assert!(matches!(&actions2[0], CapAction::Send(s) if s.starts_with("CAP REQ :")));
}

#[test]
fn ls_with_no_overlap_finishes_immediately() {
    let mut n = negotiate_with(&["sasl"]);
    let msg = parse_str(":server CAP * LS :server-time multi-prefix").unwrap();
    let actions = n.handle(&msg);
    assert_eq!(actions, vec![CapAction::Done]);
    assert!(n.is_done());
}

#[test]
fn ack_records_caps_and_finishes_when_all_received() {
    let mut n = negotiate_with(&["sasl", "server-time"]);
    let _ = n.handle(&parse_str(":server CAP * LS :sasl server-time").unwrap());

    // Server ACKs both at once.
    let actions = n.handle(&parse_str(":server CAP * ACK :sasl server-time").unwrap());
    assert!(matches!(actions.last(), Some(CapAction::Done)));
    assert!(n.is_done());
    assert!(n.acked_caps().contains("sasl"));
    assert!(n.acked_caps().contains("server-time"));
    assert!(n.sasl_acked());
}

#[test]
fn ack_partial_then_nak_finishes() {
    let mut n = negotiate_with(&["sasl", "server-time", "multi-prefix"]);
    let _ = n.handle(&parse_str(":server CAP * LS :sasl server-time multi-prefix").unwrap());

    let mid = n.handle(&parse_str(":server CAP * ACK :sasl").unwrap());
    // Still waiting on server-time + multi-prefix.
    assert!(!matches!(mid.last(), Some(CapAction::Done)));

    let end = n.handle(&parse_str(":server CAP * NAK :server-time multi-prefix").unwrap());
    assert!(matches!(end.last(), Some(CapAction::Done)));
    assert!(n.is_done());
    assert!(n.sasl_acked());
    assert!(!n.acked_caps().contains("server-time"));
}

#[test]
fn non_cap_messages_are_ignored() {
    let mut n = negotiate_with(&["sasl"]);
    let actions = n.handle(&parse_str(":server PING :foo").unwrap());
    assert!(actions.is_empty());
}

#[test]
fn cap_after_done_is_ignored() {
    let mut n = negotiate_with(&["sasl"]);
    let _ = n.handle(&parse_str(":server CAP * LS :other").unwrap());
    assert!(n.is_done());
    let actions = n.handle(&parse_str(":server CAP * NEW :sasl").unwrap());
    // Re-negotiation (CAP NEW handling) is post-MVP; we don't act on it.
    assert!(actions.is_empty());
}

#[test]
fn clones_negotiate_on_their_own() {
    let mut n = negotiate_with(&["sasl"]);
    let copy = n.clone();
    let actions = n.handle(&parse_str(":srv CAP * LS :sasl").unwrap());
    assert_eq!(actions.clone(), actions);
    assert_ne!(n, copy);
    assert!(copy.available_caps().is_empty());
}
