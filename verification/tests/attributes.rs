//! Attribute-map decoding: `N` entries followed by the terminator yield
//! exactly `N` key/value pairs.

use voxel_client::attributes::{read_entity_attributes, EntityAttributeValue};
use voxel_client::codec::{DecodeError, Reader};

fn header(ty: u8, key: u8) -> u8 {
    (ty << 5) | key
}

#[test]
fn empty_map_decodes_to_zero_entries() {
    let bytes = vec![127u8];
    let mut r = Reader::new(&bytes);
    let attrs = read_entity_attributes(&mut r).expect("empty map must decode");
    assert_eq!(attrs.len(), 0);
    assert_eq!(r.position(), 1);
}

#[test]
fn three_distinct_entries_decode_to_three_pairs() {
    let mut bytes: Vec<u8> = Vec::new();
    bytes.push(header(0, 1));
    bytes.push(7); // i8
    bytes.push(header(1, 2));
    bytes.extend_from_slice(&[0x01, 0x02]); // i16 0x0102
    bytes.push(header(4, 3));
    bytes.extend_from_slice(&[0x00, 0x02]); // string of two units
    bytes.extend_from_slice(&[0x00, b'h', 0x00, b'i']);
    bytes.push(127);
    let mut r = Reader::new(&bytes);
    let attrs = read_entity_attributes(&mut r).expect("map must decode");
    assert_eq!(attrs.len(), 3);
    assert_eq!(attrs.get(1), Some(&EntityAttributeValue::I8(7)));
    assert_eq!(attrs.get(2), Some(&EntityAttributeValue::I16(0x0102)));
    assert_eq!(attrs.get(3), Some(&EntityAttributeValue::Str(String::from("hi"))));
    assert_eq!(attrs.get(4), None);
}

#[test]
fn colliding_keys_keep_the_later_value() {
    let mut bytes: Vec<u8> = Vec::new();
    bytes.push(header(0, 5));
    bytes.push(1);
    bytes.push(header(0, 5));
    bytes.push(2);
    bytes.push(127);
    let mut r = Reader::new(&bytes);
    let attrs = read_entity_attributes(&mut r).expect("map must decode");
    assert_eq!(attrs.len(), 1);
    assert_eq!(attrs.get(5), Some(&EntityAttributeValue::I8(2)));
}

#[test]
fn all_value_types_decode() {
    let mut bytes: Vec<u8> = Vec::new();
    bytes.push(header(0, 0));
    bytes.push(0x80u8); // i8 -128
    bytes.push(header(1, 1));
    bytes.extend_from_slice(&[0xFF, 0xFE]); // i16 -2
    bytes.push(header(2, 2));
    bytes.extend_from_slice(&[0x00, 0x00, 0x01, 0x00]); // i32 256
    bytes.push(header(3, 3));
    bytes.extend_from_slice(&(1.5f32).to_bits().to_be_bytes()); // float bits
    bytes.push(header(5, 4));
    bytes.extend_from_slice(&[0x00, 0x05, 0x02, 0x00, 0x09]); // item triple
    bytes.push(header(6, 6));
    bytes.extend_from_slice(&[0, 0, 0, 1, 0, 0, 0, 2, 0, 0, 0, 3]); // position
    bytes.push(127);
    let mut r = Reader::new(&bytes);
    let attrs = read_entity_attributes(&mut r).expect("map must decode");
    assert_eq!(attrs.len(), 6);
    assert_eq!(attrs.get(0), Some(&EntityAttributeValue::I8(-128)));
    assert_eq!(attrs.get(1), Some(&EntityAttributeValue::I16(-2)));
    assert_eq!(attrs.get(2), Some(&EntityAttributeValue::I32(256)));
    assert_eq!(attrs.get(3), Some(&EntityAttributeValue::F32Bits((1.5f32).to_bits())));
    assert_eq!(
        attrs.get(4),
        Some(&EntityAttributeValue::Item { id: 5, num_items: 2, data: 9 })
    );
    assert_eq!(attrs.get(6), Some(&EntityAttributeValue::ChunkPos(1, 2, 3)));
}

#[test]
fn unsupported_attribute_type_rejected() {
    let bytes = vec![header(7, 0), 127];
    let mut r = Reader::new(&bytes);
    match read_entity_attributes(&mut r) {
        Err(DecodeError::AttributeType(7)) => {},
        other => panic!("expected an attribute-type error, got {:?}", other),
    }
}
