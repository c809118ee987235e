use minecraft_world_optimizer::location::{Location, LocationError};

#[test]
fn test_location() {
    let location = Location::new(8192, 4096, 0).unwrap();

    assert_eq!(location.get_offset(), 8192_u32);
    assert_eq!(location.get_size(), 4096_u32);
}

#[test]
fn test_chunk_function() {
    let l = 0x00000201;

    let location = Location::from_bytes(l, 0);

    assert_eq!(location.get_offset(), 8192_u32);
    assert_eq!(location.get_size(), 4096_u32);
    assert_eq!(location.get_timestamp(), 0);
}

#[test]
fn test_to_bytes() {
    let location = Location::new(8192, 4096, 0).unwrap();

    assert_eq!(location.to_location_bytes(), [0, 0, 2, 1]);
    assert_eq!(location.to_timestamp_bytes(), [0, 0, 0, 0]);
}

#[test]
fn new_refuses_misaligned_and_oversized() {
    assert_eq!(Location::new(8193, 4096, 0), Err(LocationError::Misaligned));
    assert_eq!(Location::new(8192, 100, 0), Err(LocationError::Misaligned));
    assert_eq!(Location::new(8192, 256 * 4096, 0), Err(LocationError::TooLarge));
    assert_eq!(Location::new(8192, 255 * 4096, 0).unwrap().size, 255);
}

#[test]
fn packed_word_round_trips() {
    let location = Location { offset: 0xABCDEF, size: 0x12, timestamp: 77 };
    let word = u32::from_be_bytes(location.to_location_bytes());
    assert_eq!(word, 0xABCDEF12);
    assert_eq!(Location::from_bytes(word, 77), location);
    assert_eq!(u32::from_be_bytes(location.to_timestamp_bytes()), 77);
}

#[test]
fn validity_needs_offset_and_size() {
    assert!(!Location::from_bytes(0, 0).is_valid());
    assert!(!Location::from_bytes(0x00000200, 0).is_valid());
    assert!(!Location::from_bytes(0x00000001, 0).is_valid());
    assert!(Location::from_bytes(0x00000201, 0).is_valid());
}

#[test]
fn byte_offset_of_largest_offset() {
    let location = Location::from_bytes(0xFFFFFF01, 0);
    assert_eq!(location.byte_offset(), 0xFFFFFF_u64 * 4096);
}
