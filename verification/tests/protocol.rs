use hello_espcx::protocol::advertisement_identity::{
    unit_id_from_address, ManufacturerPayload, VERSION, FLAG_BOUND, FLAG_CONFIGURED, FLAG_LOW_BATTERY, FLAG_TEST_MODE,
};
use hello_espcx::protocol::bulk::BulkStats;
use hello_espcx::protocol::{fill_test_pattern, ATT_PAYLOAD_MAX, PERIPHERAL_ADDRESS};
use hello_espcx::uuid::Uuid;

#[test]
fn test_pattern_has_documented_values() {
    let mut buffer = [0u8; 4];
    fill_test_pattern(0, &mut buffer);
    assert_eq!(buffer, [29, 46, 63, 80]);

    let mut later = [0u8; 2];
    fill_test_pattern(250, &mut later);
    assert_eq!(later, [183, 200]);

    let mut empty: [u8; 0] = [];
    fill_test_pattern(7, &mut empty);
    fill_test_pattern(usize::MAX, &mut empty);
}

#[test]
fn test_pattern_repeats_every_256_positions_at_any_offset() {
    let mut low = [0u8; 8];
    let mut high = [0u8; 8];
    fill_test_pattern(3, &mut low);
    fill_test_pattern(3 + 256, &mut high);
    assert_eq!(low, high);

    let mut top = [0u8; 1];
    fill_test_pattern(usize::MAX, &mut top);
    let expected = ((((usize::MAX as u128) * 17 + 29) % 256) as u8);
    assert_eq!(top[0], expected);
}

#[test]
fn test_pattern_is_continuous_across_chunks() {
    let mut whole = [0u8; 20];
    fill_test_pattern(100, &mut whole);
    let mut first = [0u8; 7];
    let mut second = [0u8; 13];
    fill_test_pattern(100, &mut first);
    fill_test_pattern(107, &mut second);
    assert_eq!(&whole[..7], &first[..]);
    assert_eq!(&whole[7..], &second[..]);
}

#[test]
fn payload_encodes_version_one_layout() {
    let payload = ManufacturerPayload::new(1, 0x1234_5678, 0b0000_0010);
    assert_eq!(payload.version, VERSION);
    assert_eq!(payload.to_bytes(), [1, 1, 0x78, 0x56, 0x34, 0x12, 2]);
    assert_eq!(ManufacturerPayload::new(9, 5, 0).to_bytes(), [VERSION, 9, 5, 0, 0, 0, 0]);
}

#[test]
fn payload_flags_are_tested_bitwise() {
    let payload = ManufacturerPayload::new(1, 0, FLAG_CONFIGURED | FLAG_LOW_BATTERY);
    assert!(payload.has_flag(FLAG_CONFIGURED));
    assert!(payload.has_flag(FLAG_LOW_BATTERY));
    assert!(!payload.has_flag(FLAG_BOUND));
    assert!(!payload.has_flag(FLAG_TEST_MODE));
    assert!(payload.has_flag(FLAG_BOUND | FLAG_LOW_BATTERY));
}

#[test]
fn unit_id_reads_first_four_address_bytes_little_endian() {
    assert_eq!(unit_id_from_address(PERIPHERAL_ADDRESS), 0x051a_8fff);
    assert_eq!(unit_id_from_address([1, 2, 3, 4, 5, 6]), 0x0403_0201);
}

#[test]
fn sixteen_bit_uuids_expand_with_the_base_uuid() {
    assert_eq!(Uuid::from_u16(0x180F).as_u128(), 0x0000_180F_0000_1000_8000_0080_5F9B_34FB);
    assert_eq!(Uuid::from_u128(42).as_u128(), 42);
}

#[test]
fn contract_sizes_and_defaults() {
    assert_eq!(ATT_PAYLOAD_MAX, 252);
    assert_eq!(BulkStats::default(), BulkStats { rx_bytes: 0, tx_bytes: 0 });
}
