//! The state of a server connection.

use shade::ircd::parser::parse_str;
use shade::ircd::state::{names_channel, parse_source, ChannelState, PrefixMap, ServerState, StateEvent};

fn process(state: &mut ServerState, line: &str) -> Vec<StateEvent> {
    let msg = parse_str(line).unwrap();
    state.process(&msg)
}

#[test]
fn prefix_map_default_is_ov() {
    let p = PrefixMap::default();
    assert_eq!(p.mode_for_prefix('@'), Some('o'));
    assert_eq!(p.mode_for_prefix('+'), Some('v'));
    assert_eq!(p.mode_for_prefix('%'), None);
}

#[test]
fn prefix_map_parses_ohv() {
    let p = PrefixMap::parse("(ohv)@%+");
    assert_eq!(p.mode_for_prefix('@'), Some('o'));
    assert_eq!(p.mode_for_prefix('%'), Some('h'));
    assert_eq!(p.mode_for_prefix('+'), Some('v'));
}

#[test]
fn prefix_map_malformed_falls_back_to_default() {
    let p = PrefixMap::parse("garbage");
    assert_eq!(p, PrefixMap::default());
}

#[test]
fn welcomed_sets_my_nick_and_registered() {
    let mut s = ServerState::new();
    let events = process(&mut s, ":server 001 shade :Welcome");
    assert_eq!(
        events,
        vec![StateEvent::Welcomed {
            nick: "shade".into()
        }]
    );
    assert_eq!(s.my_nick.as_deref(), Some("shade"));
    assert!(s.registered);
}

#[test]
fn isupport_prefix_token_updates_prefix_map() {
    let mut s = ServerState::new();
    let _ = process(&mut s, ":server 005 shade PREFIX=(ohv)@%+ :are supported");
    assert_eq!(s.prefix_map.mode_for_prefix('%'), Some('h'));
}

#[test]
fn join_adds_member() {
    let mut s = ServerState::new();
    s.my_nick = Some("shade".into());
    let events = process(&mut s, ":alice!u@h JOIN #c");
    assert_eq!(events.len(), 1);
    let chan = s.channel("#c").unwrap();
    assert_eq!(chan.members.len(), 1);
    let alice = chan.members.get("alice").unwrap();
    assert_eq!(alice.nick, "alice");
    assert_eq!(alice.user.as_deref(), Some("u"));
    assert_eq!(alice.host.as_deref(), Some("h"));
}

#[test]
fn join_self_marks_is_self() {
    let mut s = ServerState::new();
    s.my_nick = Some("shade".into());
    let events = process(&mut s, ":shade!u@h JOIN #c");
    match &events[0] {
        StateEvent::Joined { is_self, .. } => assert!(*is_self),
        other => panic!("unexpected event: {other:?}"),
    }
}

#[test]
fn part_removes_member() {
    let mut s = ServerState::new();
    s.my_nick = Some("shade".into());
    let _ = process(&mut s, ":alice!u@h JOIN #c");
    let _ = process(&mut s, ":alice!u@h PART #c :leaving");
    assert!(s.channel("#c").unwrap().members.is_empty());
}

#[test]
fn part_self_drops_channel() {
    let mut s = ServerState::new();
    s.my_nick = Some("shade".into());
    let _ = process(&mut s, ":shade!u@h JOIN #c");
    let _ = process(&mut s, ":shade!u@h PART #c");
    assert!(s.channel("#c").is_none());
}

#[test]
fn quit_removes_from_all_channels() {
    let mut s = ServerState::new();
    s.my_nick = Some("shade".into());
    let _ = process(&mut s, ":alice!u@h JOIN #a");
    let _ = process(&mut s, ":alice!u@h JOIN #b");
    let events = process(&mut s, ":alice!u@h QUIT :bye");
    assert_eq!(
        events,
        vec![StateEvent::Quit {
            nick: "alice".into(),
            reason: Some("bye".into())
        }]
    );
    assert!(s.channel("#a").unwrap().members.is_empty());
    assert!(s.channel("#b").unwrap().members.is_empty());
}

#[test]
fn kick_removes_target() {
    let mut s = ServerState::new();
    s.my_nick = Some("shade".into());
    let _ = process(&mut s, ":alice!u@h JOIN #c");
    let _ = process(&mut s, ":bob!u@h KICK #c alice :bad");
    assert!(s.channel("#c").unwrap().members.is_empty());
}

#[test]
fn kick_self_drops_channel() {
    let mut s = ServerState::new();
    s.my_nick = Some("shade".into());
    let _ = process(&mut s, ":shade!u@h JOIN #c");
    let _ = process(&mut s, ":enemy!u@h KICK #c shade :rude");
    assert!(s.channel("#c").is_none());
}

#[test]
fn nick_change_updates_membership_and_self() {
    let mut s = ServerState::new();
    s.my_nick = Some("shade".into());
    let _ = process(&mut s, ":shade!u@h JOIN #c");
    let _ = process(&mut s, ":alice!u@h JOIN #c");
    let _ = process(&mut s, ":alice!u@h NICK alice2");
    let chan = s.channel("#c").unwrap();
    assert!(!chan.members.contains_key("alice"));
    assert!(chan.members.contains_key("alice2"));

    // Self nick change.
    let _ = process(&mut s, ":shade!u@h NICK shade2");
    assert_eq!(s.my_nick.as_deref(), Some("shade2"));
    let chan = s.channel("#c").unwrap();
    assert!(chan.members.contains_key("shade2"));
}

#[test]
fn namreply_with_multi_prefix_assigns_modes() {
    let mut s = ServerState::new();
    s.my_nick = Some("shade".into());
    let _ = process(&mut s, ":server 353 shade = #c :@+alice +bob plain");
    let chan = s.channel("#c").unwrap();
    let alice = chan.members.get("alice").unwrap();
    assert!(alice.modes.contains(&'o'));
    assert!(alice.modes.contains(&'v'));
    let bob = chan.members.get("bob").unwrap();
    assert!(bob.modes.contains(&'v'));
    assert!(!bob.modes.contains(&'o'));
    let plain = chan.members.get("plain").unwrap();
    assert!(plain.modes.is_empty());
}

#[test]
fn topic_numerics_populate_channel_state() {
    let mut s = ServerState::new();
    s.my_nick = Some("shade".into());
    let _ = process(&mut s, ":server 332 shade #c :Hello world");
    let _ = process(&mut s, ":server 333 shade #c alice 1700000000");
    let chan = s.channel("#c").unwrap();
    assert_eq!(chan.topic.as_deref(), Some("Hello world"));
    assert_eq!(chan.topic_set_by.as_deref(), Some("alice"));
    assert_eq!(chan.topic_set_at, Some(1_700_000_000));
}

#[test]
fn topic_command_updates_state() {
    let mut s = ServerState::new();
    s.my_nick = Some("shade".into());
    let _ = process(&mut s, ":alice!u@h JOIN #c");
    let _ = process(&mut s, ":alice!u@h TOPIC #c :new topic");
    assert_eq!(s.channel("#c").unwrap().topic.as_deref(), Some("new topic"));
}

#[test]
fn mode_op_then_deop() {
    let mut s = ServerState::new();
    s.my_nick = Some("shade".into());
    let _ = process(&mut s, ":alice!u@h JOIN #c");
    let _ = process(&mut s, ":bob!u@h MODE #c +o alice");
    assert!(s
        .channel("#c")
        .unwrap()
        .members
        .get("alice")
        .unwrap()
        .modes
        .contains(&'o'));
    let _ = process(&mut s, ":bob!u@h MODE #c -o alice");
    assert!(!s
        .channel("#c")
        .unwrap()
        .members
        .get("alice")
        .unwrap()
        .modes
        .contains(&'o'));
}

#[test]
fn mode_combined_op_voice_in_one_command() {
    let mut s = ServerState::new();
    s.my_nick = Some("shade".into());
    let _ = process(&mut s, ":alice!u@h JOIN #c");
    let _ = process(&mut s, ":bob!u@h JOIN #c");
    let _ = process(&mut s, ":op!u@h MODE #c +ov alice bob");
    assert!(s
        .channel("#c")
        .unwrap()
        .members
        .get("alice")
        .unwrap()
        .modes
        .contains(&'o'));
    assert!(s
        .channel("#c")
        .unwrap()
        .members
        .get("bob")
        .unwrap()
        .modes
        .contains(&'v'));
}

#[test]
fn ping_emits_event_with_token() {
    let mut s = ServerState::new();
    let events = process(&mut s, "PING :server.example");
    assert_eq!(
        events,
        vec![StateEvent::Ping {
            token: "server.example".into()
        }]
    );
}

#[test]
fn privmsg_passthrough() {
    let mut s = ServerState::new();
    let events = process(&mut s, ":alice!u@h PRIVMSG #c :hello");
    assert_eq!(
        events,
        vec![StateEvent::Privmsg {
            from: Some("alice!u@h".into()),
            target: "#c".into(),
            body: "hello".into(),
        }]
    );
}

#[test]
fn case_insensitive_channel_lookup() {
    let mut s = ServerState::new();
    s.my_nick = Some("shade".into());
    let _ = process(&mut s, ":alice!u@h JOIN #FoO");
    assert!(s.channel("#foo").is_some());
    assert!(s.channel("#FOO").is_some());
    assert!(s.channel("#bar").is_none());
}

#[test]
fn parse_source_handles_server_and_user() {
    assert_eq!(
        parse_source("nick!user@host"),
        ("nick".into(), Some("user".into()), Some("host".into()))
    );
    assert_eq!(
        parse_source("server.example.org"),
        ("server.example.org".into(), None, None)
    );
    assert_eq!(
        parse_source("nick@host"),
        ("nick".into(), None, Some("host".into()))
    );
}

#[test]
fn clones_and_defaults_say_the_same() {
    let mut s = ServerState::default();
    assert_eq!(s, ServerState::new());
    let _ = process(&mut s, ":srv 001 me :Welcome");
    let joined = process(&mut s, ":me!u@h JOIN #shade");
    assert_eq!(joined.clone(), joined);
    let copy = s.clone();
    assert_eq!(copy, s);
    let _ = process(&mut s, ":me!u@h PART #shade");
    assert!(copy.channel("#SHADE").is_some());
    assert!(s.channel("#shade").is_none());
    assert_eq!(ChannelState::default().name, "");
}

#[test]
fn channels_are_told_by_their_first_character() {
    assert!(names_channel("#a"));
    assert!(names_channel("&a"));
    assert!(!names_channel("alice"));
    assert!(!names_channel(""));
}
