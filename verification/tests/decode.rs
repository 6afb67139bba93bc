//! Decoding: little-endian words, chemistry ids, device types.

use bq27xxx::codec::decode_le16;
use bq27xxx::codec::split_word;
use bq27xxx::ChemId;
use bq27xxx::DeviceType;

#[test]
fn le16_is_little_endian() {
    assert_eq!(decode_le16(0x34, 0x12), 0x1234);
    assert_eq!(decode_le16(0x00, 0x00), 0x0000);
    assert_eq!(decode_le16(0xFF, 0xFF), 0xFFFF);
    assert_eq!(decode_le16(0x01, 0x00), 0x0001);
    assert_eq!(decode_le16(0x00, 0x01), 0x0100);
}

#[test]
fn split_word_is_little_endian() {
    assert_eq!(split_word(0x1234), (0x34, 0x12));
    assert_eq!(split_word(0x0013), (0x13, 0x00));
    let (lo, hi) = split_word(0xBEEF);
    assert_eq!(decode_le16(lo, hi), 0xBEEF);
}

#[test]
fn chem_id_from_known_codes() {
    assert_eq!(ChemId::from(0x3230), ChemId::A4350);
    assert_eq!(ChemId::from(0x1202), ChemId::B4200);
    assert_eq!(ChemId::from(0x3142), ChemId::C4400);
}

#[test]
fn chem_id_from_unknown_code() {
    assert_eq!(ChemId::from(0x9999), ChemId::Unknown);
    assert_eq!(ChemId::from(0x0000), ChemId::Unknown);
    assert_eq!(ChemId::from(0xFFFF), ChemId::Unknown);
}

#[test]
fn device_type_from_known_codes() {
    assert_eq!(DeviceType::from(0x421), DeviceType::BQ27421);
    assert_eq!(DeviceType::from(0x426), DeviceType::BQ27426);
    assert_eq!(DeviceType::from(0x427), DeviceType::BQ27427);
}

#[test]
fn device_type_from_unknown_code() {
    assert_eq!(DeviceType::from(0x0000), DeviceType::Unknown);
    assert_eq!(DeviceType::from(0x428), DeviceType::Unknown);
    assert_eq!(DeviceType::from(0xFFFF), DeviceType::Unknown);
}
