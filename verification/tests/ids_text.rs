//! Identifier text round trips and decimal rendering.

use record_gen::ids::RecordId;
use record_gen::text::u32_to_text;

#[test]
fn id_renders_canonical_hyphenated_lowercase() {
    let id = RecordId { bits: 0x00112233445566778899aabbccddeeffu128 };
    assert_eq!(id.to_text(), "00112233-4455-6677-8899-aabbccddeeff");
}

#[test]
fn id_zero_renders_all_zero() {
    let id = RecordId { bits: 0u128 };
    assert_eq!(id.to_text(), "00000000-0000-0000-0000-000000000000");
}

#[test]
fn id_max_renders_all_f() {
    let id = RecordId { bits: u128::MAX };
    assert_eq!(id.to_text(), "ffffffff-ffff-ffff-ffff-ffffffffffff");
}

#[test]
fn id_parse_round_trip() {
    let id = RecordId { bits: 0xfedcba98765432100123456789abcdefu128 };
    let text = id.to_text();
    let back = RecordId::from_text(&text).unwrap();
    assert_eq!(back, id);
}

#[test]
fn id_parse_accepts_uppercase_digits() {
    let parsed = RecordId::from_text("00112233-4455-6677-8899-AABBCCDDEEFF").unwrap();
    assert_eq!(parsed.bits, 0x00112233445566778899aabbccddeeffu128);
}

#[test]
fn id_parse_rejects_malformed_text() {
    assert!(RecordId::from_text("not-a-uuid").is_none());
    assert!(RecordId::from_text("").is_none());
    assert!(RecordId::from_text("00112233-4455-6677-8899-aabbccddeefg").is_none());
    assert!(RecordId::from_text("00112233445566778899aabbccddeeff").is_none());
}

#[test]
fn decimal_text_exact_values() {
    assert_eq!(u32_to_text(0), "0");
    assert_eq!(u32_to_text(7), "7");
    assert_eq!(u32_to_text(37), "37");
    assert_eq!(u32_to_text(1000), "1000");
    assert_eq!(u32_to_text(u32::MAX), "4294967295");
}
