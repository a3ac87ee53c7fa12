//! The daemon.

use shade::node::daemon::ping_reply;

#[test]
fn ping_reply_in_channel_targets_channel() {
    assert_eq!(
        ping_reply("#shade-test", "!ping", Some("alice!u@h")).as_deref(),
        Some("PRIVMSG #shade-test :pong")
    );
}

#[test]
fn ping_reply_in_pm_targets_sender_nick() {
    assert_eq!(
        ping_reply("shade", "!ping", Some("alice!u@h")).as_deref(),
        Some("PRIVMSG alice :pong")
    );
}

#[test]
fn ping_reply_ignores_other_bodies() {
    assert!(ping_reply("#x", "hello", Some("a!u@h")).is_none());
    assert!(ping_reply("#x", "!pingfoo", Some("a!u@h")).is_none());
}

#[test]
fn ping_reply_trims_whitespace() {
    assert_eq!(
        ping_reply("#x", "  !ping  ", Some("a!u@h")).as_deref(),
        Some("PRIVMSG #x :pong")
    );
}
