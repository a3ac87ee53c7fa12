//! The operator tool.

use shade::node::url::percent_encode;

#[test]
fn percent_encode_handles_channel_names_and_passthrough_alphanums() {
    assert_eq!(percent_encode("#shade-test"), "%23shade-test");
    assert_eq!(percent_encode("alice"), "alice");
    assert_eq!(percent_encode("alice.bob_42"), "alice.bob_42");
    assert_eq!(percent_encode("user!u@h"), "user%21u%40h");
}

#[test]
fn percent_encode_uppercases_hex_digits() {
    // `:` is 0x3A → "%3A" not "%3a".
    assert_eq!(percent_encode("a:b"), "a%3Ab");
}
