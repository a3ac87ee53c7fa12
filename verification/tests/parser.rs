//! The line parser.

use shade::ircd::message::{Command, ParseError};
use shade::ircd::parser::{parse, parse_str};

#[test]
fn ping_with_trailing() {
    let m = parse_str("PING :server.example\r\n").unwrap();
    assert_eq!(m.command, Command::Word("PING"));
    assert_eq!(m.params, vec!["server.example"]);
    assert!(m.source.is_none());
    assert!(m.tags.is_empty());
}

#[test]
fn privmsg_with_source_and_trailing() {
    let m = parse_str(":nick!user@host PRIVMSG #chan :hello world\r\n").unwrap();
    assert_eq!(m.source, Some("nick!user@host"));
    assert_eq!(m.command, Command::Word("PRIVMSG"));
    assert_eq!(m.params, vec!["#chan", "hello world"]);
}

#[test]
fn numeric_001_welcome() {
    let m = parse_str(":server.example 001 myNick :Welcome to the network").unwrap();
    assert!(m.is_numeric(1));
    assert_eq!(m.command, Command::Numeric(1));
    assert_eq!(m.params, vec!["myNick", "Welcome to the network"]);
}

#[test]
fn ircv3_tags_with_source_and_command() {
    let m = parse_str(
        "@time=2025-01-01T00:00:00.000Z;account=foo \
         :nick!user@host JOIN #chan",
    )
    .unwrap();
    assert_eq!(
        m.tags.raw_get("time"),
        Some(Some("2025-01-01T00:00:00.000Z"))
    );
    assert_eq!(m.tags.raw_get("account"), Some(Some("foo")));
    assert_eq!(m.source, Some("nick!user@host"));
    assert!(m.is_command("join"));
    assert_eq!(m.params, vec!["#chan"]);
}

#[test]
fn empty_trailing_param() {
    let m = parse_str("PRIVMSG #c :").unwrap();
    assert_eq!(m.params, vec!["#c", ""]);
}

#[test]
fn no_trailing_param() {
    let m = parse_str("PRIVMSG #c").unwrap();
    assert_eq!(m.params, vec!["#c"]);
}

#[test]
fn bare_tag_no_value() {
    let m = parse_str("@empty PING :s").unwrap();
    assert_eq!(m.tags.raw_get("empty"), Some(None));
    assert_eq!(m.command, Command::Word("PING"));
    assert_eq!(m.params, vec!["s"]);
}

#[test]
fn server_source_no_user_host() {
    let m = parse_str(":server.foo NOTICE * :Hello there").unwrap();
    assert_eq!(m.source, Some("server.foo"));
    assert_eq!(m.command, Command::Word("NOTICE"));
    assert_eq!(m.params, vec!["*", "Hello there"]);
}

#[test]
fn collapses_runs_of_spaces_between_segments() {
    // RFC says params are separated by single spaces, but real-world
    // implementations sometimes pad. We collapse cosmetic whitespace
    // between major segments and between space-separated params, but
    // a leading colon still starts trailing.
    let m = parse_str(":src   PRIVMSG   #c   hello   :trailing").unwrap();
    assert_eq!(m.source, Some("src"));
    assert_eq!(m.command, Command::Word("PRIVMSG"));
    assert_eq!(m.params, vec!["#c", "hello", "trailing"]);
}

#[test]
fn cap_ls_with_trailing() {
    let m = parse_str(":server CAP * LS :sasl server-time multi-prefix").unwrap();
    assert_eq!(m.command, Command::Word("CAP"));
    assert_eq!(m.params, vec!["*", "LS", "sasl server-time multi-prefix"]);
}

#[test]
fn lone_lf_terminator() {
    let m = parse_str("PING :s\n").unwrap();
    assert_eq!(m.command, Command::Word("PING"));
}

#[test]
fn no_terminator_is_fine() {
    let m = parse_str("PING :s").unwrap();
    assert_eq!(m.command, Command::Word("PING"));
}

#[test]
fn err_empty() {
    assert_eq!(parse_str("").unwrap_err(), ParseError::Empty);
    assert_eq!(parse_str("\r\n").unwrap_err(), ParseError::Empty);
    assert_eq!(parse_str("\n").unwrap_err(), ParseError::Empty);
}

#[test]
fn err_tags_truncated() {
    assert_eq!(parse_str("@a").unwrap_err(), ParseError::TagsTruncated);
    assert_eq!(parse_str("@k=v").unwrap_err(), ParseError::TagsTruncated);
}

#[test]
fn err_source_truncated() {
    assert_eq!(parse_str(":src").unwrap_err(), ParseError::SourceTruncated);
}

#[test]
fn err_missing_command_after_tags() {
    // "@a " parses tags=a, then rest=""; that's missing command.
    assert_eq!(parse_str("@a ").unwrap_err(), ParseError::MissingCommand);
}

#[test]
fn err_missing_command_after_source() {
    assert_eq!(parse_str(":src ").unwrap_err(), ParseError::MissingCommand);
}

#[test]
fn err_not_utf8_via_bytes_api() {
    let bad = [0xff, 0xfe, b'\r', b'\n'];
    assert_eq!(parse(&bad).unwrap_err(), ParseError::NotUtf8);
}

#[test]
fn message_helpers() {
    let m = parse_str("PRIVMSG #c :hello").unwrap();
    assert!(m.is_command("PRIVMSG"));
    assert!(m.is_command("privmsg")); // case-insensitive
    assert!(!m.is_command("NOTICE"));
    assert!(!m.is_numeric(1));
    assert_eq!(m.param(0), Some("#c"));
    assert_eq!(m.param(1), Some("hello"));
    assert_eq!(m.param(2), None);
}
