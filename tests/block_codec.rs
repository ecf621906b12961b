use minecraft_world::block_codec::{deserialize_block_data, LightBank, MapBlock, MapBlock29, MapBlockData};
use minecraft_world::types::SpatialCoordinate;
use minecraft_world::world::WorldError;

fn payload(flags: u8) -> Vec<u8> {
    let mut p = vec![29u8, 0xAA, 0xBB, flags];
    p.extend_from_slice(&[1, 2, 3, 4, 5, 6, 7, 8, 9, 10]);
    p
}

#[test]
fn flags_of_byte_two() {
    let block = deserialize_block_data(&payload(0b0000_0011)).unwrap();
    assert!(block.underground());
    assert!(block.day_night_differs());
    assert!(!block.light_dirty());
    assert!(!block.was_generated());
}

#[test]
fn every_flag_bit() {
    let block = deserialize_block_data(&payload(0b0000_1100)).unwrap();
    assert!(!block.underground());
    assert!(!block.day_night_differs());
    assert!(block.light_dirty());
    assert!(block.was_generated());
    assert!(!block.light_complete(LightBank::Day, SpatialCoordinate::up()));
    assert_eq!(block.timestamp(), 0);
}

#[test]
fn serialize_gives_back_the_header() {
    let p = payload(0b1010);
    let block = deserialize_block_data(&p).unwrap();
    assert_eq!(block.serialize(), p[..14].to_vec());
    let again = deserialize_block_data(&block.serialize()).unwrap();
    assert_eq!(again.serialize(), block.serialize());
}

#[test]
fn trailing_bytes_are_ignored() {
    let mut p = payload(1);
    p.extend_from_slice(&[99, 98, 97]);
    let MapBlock::V29(b) = deserialize_block_data(&p).unwrap();
    assert!(b.underground());
    assert_eq!(b.serialize().len(), 14);
}

#[test]
fn unknown_version_is_rejected() {
    let mut p = payload(0);
    p[0] = 28;
    assert!(matches!(deserialize_block_data(&p), Err(WorldError::UnsupportedVersion(28))));
}

#[test]
fn empty_or_short_payload_is_corrupt() {
    assert!(matches!(deserialize_block_data(&vec![]), Err(WorldError::CorruptData(_))));
    let short = payload(0)[..13].to_vec();
    assert!(matches!(deserialize_block_data(&short), Err(WorldError::CorruptData(_))));
}

#[test]
fn deserialize_reads_header_without_version() {
    let header = [0u8, 0, 0b0100, 0, 0, 0, 0, 0, 0, 0, 0, 0, 0];
    let b = MapBlock29::deserialize(&header);
    assert!(b.light_dirty());
    assert!(!b.underground());
    assert_eq!(b.serialize()[0], 29);
}

#[test]
fn try_deserialize_checks_length() {
    assert!(matches!(MapBlock29::try_deserialize(&[0u8; 12]), Err(WorldError::CorruptData(_))));
    let b = MapBlock29::try_deserialize(&[0, 0, 0b1000, 0, 0, 0, 0, 0, 0, 0, 0, 0, 0]).unwrap();
    assert!(b.was_generated());
}
