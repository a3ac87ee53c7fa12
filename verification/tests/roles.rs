//! Roles and how they are spread over peers.

use shade::model::role::{slots_for, Role, ROLE_COUNTS};
use shade::model::role_assignment::{compute_assignment, holds_role};

#[test]
fn role_round_trips_through_i64() {
    for &(role, _) in ROLE_COUNTS.iter() {
        assert_eq!(Role::from_i64(role.as_i64()), Some(role));
    }
    assert_eq!(Role::from_i64(0), None);
    assert_eq!(Role::from_i64(99), None);
}

#[test]
fn slots_match_wraith_table() {
    // Spot-check a few. The full table is the source of truth.
    assert_eq!(slots_for(Role::Op), 1);
    assert_eq!(slots_for(Role::Kick), 2);
    assert_eq!(slots_for(Role::Flood), 3);
    assert_eq!(slots_for(Role::Revenge), 3);
}

#[test]
fn resolv_role_is_absent() {
    // Every node resolves names by itself: 12 entries, not 13.
    assert_eq!(ROLE_COUNTS.len(), 12);
}

#[test]
fn role_serializes_as_lowercase_string() {
    let j = serde_json::to_string(Role::Op.name()).unwrap();
    assert_eq!(j, "\"op\"");
    let name: String = serde_json::from_str("\"chanmode\"").unwrap();
    assert_eq!(Role::from_name(&name), Some(Role::ChanMode));
    for &(role, _) in ROLE_COUNTS.iter() {
        assert_eq!(Role::from_name(role.name()), Some(role));
    }
    assert_eq!(Role::from_name("Op"), None);
}

#[test]
fn empty_peer_set_yields_empty_assignments_for_every_role() {
    let m = compute_assignment(&[]);
    for &(role, _) in ROLE_COUNTS.iter() {
        assert!(m.get(&role).unwrap().is_empty(), "{role:?}");
    }
}

#[test]
fn single_peer_holds_every_role_capped_at_one_slot() {
    let m = compute_assignment(&["node-a".into()]);
    for &(role, _) in ROLE_COUNTS.iter() {
        assert_eq!(m.get(&role).unwrap(), &["node-a".to_string()], "{role:?}");
    }
}

#[test]
fn assignment_is_stable_under_input_permutation() {
    let a = compute_assignment(&["node-a".into(), "node-b".into(), "node-c".into()]);
    let b = compute_assignment(&["node-c".into(), "node-a".into(), "node-b".into()]);
    assert_eq!(a, b, "sorting + dedup should make order irrelevant");
}

#[test]
fn assignment_is_stable_under_duplicate_inputs() {
    let a = compute_assignment(&["node-a".into(), "node-a".into(), "node-b".into()]);
    let b = compute_assignment(&["node-a".into(), "node-b".into()]);
    assert_eq!(a, b);
}

#[test]
fn three_peers_each_role_idx_starts_at_distinct_offset() {
    let peers = vec!["a".into(), "b".into(), "c".into()];
    let m = compute_assignment(&peers);
    // Role at index 0 (Voice, 1 slot) → starts at offset 0 → ["a"].
    assert_eq!(m.get(&Role::Voice).unwrap(), &vec!["a".to_string()]);
    // Role at index 1 (Flood, 3 slots) → starts at offset 1 → ["b", "c", "a"].
    assert_eq!(
        m.get(&Role::Flood).unwrap(),
        &vec!["b".to_string(), "c".to_string(), "a".to_string()]
    );
    // Role at index 2 (Op, 1 slot) → offset 2 → ["c"].
    assert_eq!(m.get(&Role::Op).unwrap(), &vec!["c".to_string()]);
    // Role at index 3 (Deop, 1 slot) → offset 3 % 3 = 0 → ["a"].
    assert_eq!(m.get(&Role::Deop).unwrap(), &vec!["a".to_string()]);
}

#[test]
fn slots_capped_to_peer_count() {
    // Flood needs 3 slots; with only 2 peers, we get [b, a] (start
    // offset 1 % 2 = 1) — never 3 entries.
    let m = compute_assignment(&["a".into(), "b".into()]);
    assert_eq!(m.get(&Role::Flood).unwrap().len(), 2);
}

#[test]
fn holds_role_consistent_with_assignment() {
    let peers: Vec<String> = vec!["a".into(), "b".into(), "c".into()];
    for &(role, _) in ROLE_COUNTS.iter() {
        let assignment = compute_assignment(&peers);
        for peer in &peers {
            let expected = assignment.get(&role).unwrap().contains(peer);
            assert_eq!(
                holds_role(&peers, peer, role),
                expected,
                "{peer} for {role:?}"
            );
        }
    }
}
