//! Flag sets.

use shade::model::flags::{
    FlagSet, FlagSetParseError, USER_ADMIN, USER_AUTOOP, USER_KICK, USER_OP, USER_OWNER,
};

#[test]
fn lowercase_a_through_z_pack_into_low_bits() {
    let set: FlagSet = "+abcdefghijklmnopqrstuvwxyz".parse().unwrap();
    assert_eq!(set.bits(), (1u64 << 26) - 1);
}

#[test]
fn uppercase_a_through_z_pack_into_high_bits() {
    let set: FlagSet = "+ABCDEFGHIJKLMNOPQRSTUVWXYZ".parse().unwrap();
    // 26 bits set starting at bit 26.
    assert_eq!(set.bits(), ((1u64 << 26) - 1) << 26);
}

#[test]
fn round_trip_through_string() {
    let original: FlagSet = "+oxv".parse().unwrap();
    let rendered = original.to_string();
    let parsed: FlagSet = rendered.parse().unwrap();
    assert_eq!(original, parsed);
}

#[test]
fn display_canonicalizes_letter_order() {
    let set: FlagSet = "+xvo".parse().unwrap();
    assert_eq!(set.to_string(), "+ovx");
}

#[test]
fn empty_flagset_displays_as_empty_string() {
    assert_eq!(FlagSet::none().to_string(), "");
}

#[test]
fn diff_with_minus_removes_letters() {
    let mut set: FlagSet = "+oxv".parse().unwrap();
    set.apply_diff("-x").unwrap();
    assert_eq!(set.to_string(), "+ov");
}

#[test]
fn diff_with_plus_then_minus_in_same_string() {
    let mut set = FlagSet::none();
    set.apply_diff("+ox-d+v").unwrap();
    assert_eq!(set.to_string(), "+ovx");
}

#[test]
fn invalid_char_rejected() {
    let err = "+!".parse::<FlagSet>().unwrap_err();
    assert_eq!(err, FlagSetParseError::InvalidChar('!'));
}

#[test]
fn contains_letter_checks_membership() {
    let set: FlagSet = "+ox".parse().unwrap();
    assert!(set.contains_letter('o'));
    assert!(set.contains_letter('x'));
    assert!(!set.contains_letter('v'));
    assert!(!set.contains_letter('!'));
}

#[test]
fn union_and_difference() {
    let a: FlagSet = "+ox".parse().unwrap();
    let b: FlagSet = "+vx".parse().unwrap();
    assert_eq!((a | b).to_string(), "+ovx");
    assert_eq!(a.difference(b).to_string(), "+o");
    assert_eq!((a & b).to_string(), "+x");
}

#[test]
fn contains_subset() {
    let parent: FlagSet = "+oxv".parse().unwrap();
    let child: FlagSet = "+ov".parse().unwrap();
    assert!(parent.contains(child));
    assert!(!child.contains(parent));
}

#[test]
fn lowercase_o_and_uppercase_o_are_distinct_bits() {
    let lower: FlagSet = "+o".parse().unwrap();
    let upper: FlagSet = "+O".parse().unwrap();
    assert_ne!(lower.bits(), upper.bits());
    assert!(!lower.contains(upper));
}

#[test]
fn letters_iterates_in_canonical_order() {
    let set: FlagSet = "+xZaO".parse().unwrap();
    let collected: String = set.letters().into_iter().collect();
    assert_eq!(collected, "axOZ");
}

#[test]
fn apply_diff_idempotent_on_redundant_adds() {
    let mut set: FlagSet = "+o".parse().unwrap();
    set.apply_diff("+o").unwrap();
    assert_eq!(set.to_string(), "+o");
}

#[test]
fn from_letters_rejects_plus_or_minus() {
    // from_letters does not interpret diff markers — pass clean letters.
    let err = FlagSet::from_letters("+o").unwrap_err();
    assert_eq!(err, FlagSetParseError::InvalidChar('+'));
}

#[test]
fn canonical_letters_match_wraith() {
    // Sanity check the published constants point at the right chars.
    assert_eq!(USER_OP, 'o');
    assert_eq!(USER_AUTOOP, 'O');
    assert_eq!(USER_KICK, 'k');
    assert_eq!(USER_OWNER, 'n');
    assert_eq!(USER_ADMIN, 'a');
}
