//! The mode queue.

use shade::ircd::mode_queue::{ModeChange, ModeQueue, QueueKind};

fn op(nick: &str) -> ModeChange {
    ModeChange::add('o', Some(nick.to_owned()))
}
fn deop(nick: &str) -> ModeChange {
    ModeChange::remove('o', Some(nick.to_owned()))
}
fn voice(nick: &str) -> ModeChange {
    ModeChange::add('v', Some(nick.to_owned()))
}

#[test]
fn empty_queue_flushes_nothing() {
    let mut q = ModeQueue::new();
    assert!(q.flush("#c", QueueKind::Standard).is_empty());
}

#[test]
fn single_op_flushes_one_line() {
    let mut q = ModeQueue::new();
    q.enqueue("#c", QueueKind::Standard, op("alice"));
    let lines = q.flush("#c", QueueKind::Standard);
    assert_eq!(lines, vec!["MODE #c +o alice"]);
}

#[test]
fn negatives_emitted_before_positives() {
    let mut q = ModeQueue::new();
    // Enqueue in mixed order; flush should reorder.
    q.enqueue("#c", QueueKind::Standard, op("alice"));
    q.enqueue("#c", QueueKind::Standard, deop("bob"));
    q.enqueue("#c", QueueKind::Standard, voice("carol"));
    let lines = q.flush("#c", QueueKind::Standard);
    assert_eq!(lines, vec!["MODE #c -o+ov bob alice carol"]);
}

#[test]
fn six_modes_pack_into_one_line() {
    let mut q = ModeQueue::new();
    for nick in ["a", "b", "c", "d", "e", "f"] {
        q.enqueue("#c", QueueKind::Standard, op(nick));
    }
    let lines = q.flush("#c", QueueKind::Standard);
    assert_eq!(lines, vec!["MODE #c +oooooo a b c d e f"]);
}

#[test]
fn seven_modes_split_into_two_lines() {
    let mut q = ModeQueue::new();
    for nick in ["a", "b", "c", "d", "e", "f", "g"] {
        q.enqueue("#c", QueueKind::Standard, op(nick));
    }
    let lines = q.flush("#c", QueueKind::Standard);
    assert_eq!(lines, vec!["MODE #c +oooooo a b c d e f", "MODE #c +o g"]);
}

#[test]
fn modes_without_args_omit_the_args_field() {
    let mut q = ModeQueue::new();
    q.enqueue("#c", QueueKind::Standard, ModeChange::add('i', None));
    q.enqueue("#c", QueueKind::Standard, ModeChange::remove('m', None));
    let lines = q.flush("#c", QueueKind::Standard);
    assert_eq!(lines, vec!["MODE #c -m+i"]);
}

#[test]
fn cookie_queue_is_independent() {
    let mut q = ModeQueue::new();
    q.enqueue("#c", QueueKind::Standard, voice("alice"));
    q.enqueue("#c", QueueKind::Cookie, op("alice"));
    let standard = q.flush("#c", QueueKind::Standard);
    let cookie = q.flush("#c", QueueKind::Cookie);
    assert_eq!(standard, vec!["MODE #c +v alice"]);
    assert_eq!(cookie, vec!["MODE #c +o alice"]);
}

#[test]
fn poll_due_with_flush_all_returns_every_bucket() {
    let mut q = ModeQueue::new();
    q.enqueue("#a", QueueKind::Standard, op("alice"));
    q.enqueue("#b", QueueKind::Standard, deop("bob"));
    let mut out = q.poll_due(true);
    out.sort();
    assert_eq!(
        out,
        vec![
            ("#a".to_string(), "MODE #a +o alice".to_string()),
            ("#b".to_string(), "MODE #b -o bob".to_string()),
        ]
    );
    // Buckets emptied.
    assert_eq!(q.pending("#a", QueueKind::Standard), 0);
    assert_eq!(q.pending("#b", QueueKind::Standard), 0);
}

#[test]
fn poll_due_without_flush_all_holds_normal_priority() {
    let mut q = ModeQueue::new();
    q.enqueue("#c", QueueKind::Standard, op("alice"));
    let out = q.poll_due(false);
    assert!(out.is_empty(), "normal priority shouldn't preempt");
    assert_eq!(q.pending("#c", QueueKind::Standard), 1);
}

#[test]
fn quick_priority_preempts_via_poll_due() {
    let mut q = ModeQueue::new();
    q.enqueue("#c", QueueKind::Standard, op("alice").with_quick_priority());
    let out = q.poll_due(false);
    assert_eq!(
        out,
        vec![("#c".to_string(), "MODE #c +o alice".to_string())]
    );
    assert_eq!(q.pending("#c", QueueKind::Standard), 0);
}

#[test]
fn full_bucket_flushes_via_poll_due_without_flush_all() {
    let mut q = ModeQueue::new();
    for nick in ["a", "b", "c", "d", "e", "f"] {
        q.enqueue("#c", QueueKind::Standard, op(nick));
    }
    let out = q.poll_due(false);
    assert_eq!(out.len(), 1);
    assert_eq!(out[0].1, "MODE #c +oooooo a b c d e f");
}

#[test]
fn full_bucket_plus_extra_emits_two_lines_on_full_flush() {
    let mut q = ModeQueue::new();
    for nick in ["a", "b", "c", "d", "e", "f", "g"] {
        q.enqueue("#c", QueueKind::Standard, op(nick));
    }
    let out = q.poll_due(true);
    assert_eq!(out.len(), 2);
}
