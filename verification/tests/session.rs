//! The session state machine and what feeds it.

use shade::ircd::connection::{strip_eol, ConnectionEvent, SendError, WriteRateConfig};
use shade::ircd::rate_limit::{Grant, RateLimiter};
use shade::ircd::sasl::SaslMechanism;
use shade::ircd::session::{Phase, Runner, SessionAction, SessionConfig, SessionEvent};

fn config(sasl: Option<SaslMechanism>) -> SessionConfig {
    SessionConfig {
        nick: "shade".into(),
        ident: "shade".into(),
        realname: "Shade Test".into(),
        desired_caps: vec!["sasl".into()],
        sasl,
        channels: vec!["#shade-test".into()],
    }
}

fn line(r: &mut Runner, s: &str) -> Vec<SessionAction> {
    r.handle_connection_event(ConnectionEvent::Line(s.into()))
}

fn sent(actions: &[SessionAction]) -> Vec<String> {
    actions
        .iter()
        .filter_map(|a| match a {
            SessionAction::Send(l) => Some(l.clone()),
            _ => None,
        })
        .collect()
}

#[test]
fn end_to_end_no_sasl_reaches_welcome_and_joins() {
    let mut r = Runner::new(config(None));
    let boot = sent(&r.handle_connection_event(ConnectionEvent::Connected));
    assert!(boot[0].starts_with("CAP LS"), "got: {}", boot[0]);
    assert!(boot[1].starts_with("NICK shade"), "got: {}", boot[1]);
    assert!(boot[2].starts_with("USER shade"), "got: {}", boot[2]);

    // Server has no overlapping caps, so the session ends negotiation.
    assert_eq!(sent(&line(&mut r, ":server CAP * LS :server-time")), vec!["CAP END"]);

    let out = line(&mut r, ":server 001 shade :Welcome");
    assert_eq!(sent(&out), vec!["JOIN #shade-test"]);
    assert!(out.contains(&SessionAction::SetReady(true)));
    assert!(out.contains(&SessionAction::Emit(SessionEvent::Welcomed {
        nick: "shade".into()
    })));
    assert_eq!(r.phase(), Phase::Registered);

    let out = line(&mut r, ":shade!u@h JOIN #shade-test");
    assert!(out.iter().any(|a| matches!(
        a,
        SessionAction::Emit(SessionEvent::Joined { channel, is_self: true, .. })
            if channel == "#shade-test"
    )));
}

#[test]
fn end_to_end_sasl_plain_completes() {
    let mut r = Runner::new(config(Some(SaslMechanism::Plain {
        authzid: String::new(),
        username: "shade".into(),
        password: "hunter2".into(),
    })));
    let _ = r.handle_connection_event(ConnectionEvent::Connected);
    assert_eq!(sent(&line(&mut r, ":server CAP * LS :sasl")), vec!["CAP REQ :sasl"]);
    assert_eq!(
        sent(&line(&mut r, ":server CAP * ACK :sasl")),
        vec!["AUTHENTICATE PLAIN"]
    );
    assert_eq!(
        sent(&line(&mut r, "AUTHENTICATE +")),
        vec!["AUTHENTICATE AHNoYWRlAGh1bnRlcjI="]
    );
    let out = line(&mut r, ":server 903 shade :SASL successful");
    assert_eq!(sent(&out), vec!["CAP END"]);
    assert!(out.contains(&SessionAction::Emit(SessionEvent::SaslOutcome {
        succeeded: true
    })));
    let out = line(&mut r, ":server 001 shade :Welcome");
    assert_eq!(sent(&out), vec!["JOIN #shade-test"]);
}

#[test]
fn ping_is_answered_with_pong() {
    let mut r = Runner::new(config(None));
    let _ = r.handle_connection_event(ConnectionEvent::Connected);
    let _ = line(&mut r, ":server CAP * LS :");
    assert_eq!(sent(&line(&mut r, "PING :wakeywakey")), vec!["PONG :wakeywakey"]);
}

#[test]
fn disconnecting_starts_over() {
    let mut r = Runner::new(config(None));
    let _ = r.handle_connection_event(ConnectionEvent::Connected);
    let _ = line(&mut r, ":server CAP * LS :x");
    let _ = line(&mut r, ":server 001 shade :Welcome");
    let out = r.handle_connection_event(ConnectionEvent::Disconnected {
        reason: "eof".into(),
        delay_ms: 1_000,
    });
    assert!(out.contains(&SessionAction::SetReady(false)));
    assert_eq!(r.phase(), Phase::Disconnected);
    assert_eq!(r, Runner::new(config(None)));
    assert!(r.flush_mode_queue().is_empty());
}

#[test]
fn strip_eol_handles_crlf_lf_and_neither() {
    assert_eq!(strip_eol("hello\r\n"), "hello");
    assert_eq!(strip_eol("hello\n"), "hello");
    assert_eq!(strip_eol("hello"), "hello");
}

#[test]
fn write_defaults_and_errors() {
    let w = WriteRateConfig::default();
    assert_eq!((w.burst_bytes, w.refill_bps), (1024, 256));
    assert_eq!(SendError::Closed.to_string(), "connection runner has terminated");
    assert_eq!(SendError::Full.to_string(), "write queue is full");
}

const SECOND: u128 = 1_000_000_000;

#[test]
fn full_bucket_grants_immediately() {
    let mut rl = RateLimiter::new(1024, 256, 0);
    assert!(rl.try_consume(512, 0));
    assert!(rl.try_consume(512, 0));
    assert!(!rl.try_consume(1, 0));
}

#[test]
fn refill_after_time_passes() {
    let mut rl = RateLimiter::new(1024, 256, 0);
    assert!(rl.try_consume(1024, 0));
    assert!(!rl.try_consume(1, 0));
    // 1s at 256 bytes/s adds 256 tokens.
    assert!(rl.try_consume(256, SECOND));
    assert!(!rl.try_consume(1, SECOND));
}

#[test]
fn refill_caps_at_capacity() {
    let mut rl = RateLimiter::new(1024, 256, 0);
    assert!(rl.try_consume(1024, 0));
    // Long enough to overfill if not capped.
    assert!(rl.try_consume(0, 60 * SECOND));
    assert_eq!(rl.available(), 1024);
}

#[test]
fn wait_for_sleeps_until_tokens_arrive() {
    let mut rl = RateLimiter::new(256, 256, 0);
    assert!(rl.try_consume(256, 0));
    // 128 bytes at 256 bytes/s take half a second.
    match rl.wait_for(128, 0) {
        Grant::Wait(ms) => assert!((450..2_000).contains(&ms), "{ms}"),
        Grant::Granted => panic!("granted from an empty bucket"),
    }
    assert_eq!(rl.wait_for(128, SECOND), Grant::Granted);
}

#[test]
fn refused_credentials_do_not_wedge_the_session() {
    for (numeric, succeeded) in [(903, true), (902, false), (904, false), (905, false), (906, false), (907, false)] {
        let mut r = Runner::new(config(Some(SaslMechanism::External {
            authzid: String::new(),
        })));
        let _ = r.handle_connection_event(ConnectionEvent::Connected);
        let _ = line(&mut r, ":server CAP * LS :sasl");
        let _ = line(&mut r, ":server CAP * ACK :sasl");
        assert_eq!(sent(&line(&mut r, "AUTHENTICATE +")), vec!["AUTHENTICATE +"]);
        let out = line(&mut r, &format!(":server {numeric} shade :outcome"));
        assert_eq!(
            out,
            vec![
                SessionAction::Emit(SessionEvent::SaslOutcome { succeeded }),
                SessionAction::Send("CAP END".into()),
            ]
        );
        assert_eq!(r.phase(), Phase::AwaitingWelcome);
    }
}

#[test]
fn waiting_as_long_as_told_is_enough() {
    let mut rl = RateLimiter::new(100, 7, 0);
    assert!(rl.try_consume(100, 0));
    let Grant::Wait(ms) = rl.wait_for(50, 3_000_000) else {
        panic!("nothing is left");
    };
    assert_eq!(ms, 7_143);
    let later = 3_000_000 + u128::from(ms) * 1_000_000;
    assert_eq!(rl.wait_for(50, later), Grant::Granted);
}
