//! Messages, commands and tags.

use shade::ircd::message::{decode_tag_value, Command, Tags};

#[test]
fn command_display_word() {
    assert_eq!(Command::Word("PRIVMSG").to_string(), "PRIVMSG");
}

#[test]
fn command_display_numeric_zero_pads() {
    assert_eq!(Command::Numeric(1).to_string(), "001");
    assert_eq!(Command::Numeric(353).to_string(), "353");
}

#[test]
fn tags_iter_skips_empty_entries() {
    let t = Tags::new("a;;b");
    let collected: Vec<_> = t.iter().collect();
    assert_eq!(collected, vec![("a", None), ("b", None)]);
}

#[test]
fn tags_iter_handles_kv_and_bare() {
    let t = Tags::new("account=foo;bar;time=1");
    let collected: Vec<_> = t.iter().collect();
    assert_eq!(
        collected,
        vec![("account", Some("foo")), ("bar", None), ("time", Some("1"))]
    );
}

#[test]
fn tags_value_with_equals_keeps_remainder() {
    let t = Tags::new("k=a=b=c");
    assert_eq!(t.raw_get("k"), Some(Some("a=b=c")));
}

#[test]
fn tags_raw_get_distinguishes_absence_from_no_value() {
    let t = Tags::new("k1;k2=v");
    assert_eq!(t.raw_get("k1"), Some(None));
    assert_eq!(t.raw_get("k2"), Some(Some("v")));
    assert_eq!(t.raw_get("missing"), None);
}

#[test]
fn decode_tag_value_no_escapes_borrows() {
    let v = decode_tag_value("hello world");
    assert!(matches!(v, std::borrow::Cow::Borrowed(_)));
    assert_eq!(v, "hello world");
}

#[test]
fn decode_tag_value_handles_each_escape() {
    assert_eq!(decode_tag_value(r"a\:b"), "a;b");
    assert_eq!(decode_tag_value(r"a\sb"), "a b");
    assert_eq!(decode_tag_value(r"a\\b"), "a\\b");
    assert_eq!(decode_tag_value(r"a\rb"), "a\rb");
    assert_eq!(decode_tag_value(r"a\nb"), "a\nb");
}

#[test]
fn decode_tag_value_drops_trailing_backslash() {
    assert_eq!(decode_tag_value(r"abc\"), "abc");
}

#[test]
fn decode_tag_value_unknown_escape_keeps_char() {
    assert_eq!(decode_tag_value(r"a\xb"), "axb");
}
