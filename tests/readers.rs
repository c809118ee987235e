use minecraft_world_optimizer::binary_reader::BinaryReader;
use minecraft_world_optimizer::readers::{read_i32, read_string, read_u16, NbtError};

#[test]
fn test_read_i8() {
    let data = [0x7F];
    let mut reader = BinaryReader::new(&data);
    assert_eq!(reader.read_i8().unwrap(), 127);
}

#[test]
fn test_read_i16() {
    let data = [0x7F, 0xFF];
    let mut reader = BinaryReader::new(&data);
    assert_eq!(reader.read_i16().unwrap(), 32767);
}

#[test]
fn test_read_u16() {
    let data = [0x0F, 0xFF];
    let mut reader = BinaryReader::new(&data);
    assert_eq!(reader.read_u16().unwrap(), 4095);
}

#[test]
fn test_read_i32() {
    let data = [0x7F, 0xFF, 0xFF, 0xFF];
    let mut reader = BinaryReader::new(&data);
    assert_eq!(reader.read_i32().unwrap(), 2147483647);
}

#[test]
fn binary_reader_test_read_string() {
    let data = [0, 5, 72, 69, 76, 76, 79];
    let mut reader = BinaryReader::new(&data);
    let parsed = reader.read_string().unwrap();

    assert_eq!(parsed, "HELLO");
}

#[test]
fn readers_test_read_string() {
    let data = &[0, 5, 72, 69, 76, 76, 79];
    let mut index = 0_usize;
    let parsed = read_string(data, &mut index).unwrap();

    assert_eq!(parsed, "HELLO");
}

#[test]
fn read_f32_bits() {
    let data = [0x3F, 0x80, 0x00, 0x00];
    let mut reader = BinaryReader::new(&data);
    assert_eq!(f32::from_bits(reader.read_u32().unwrap()), 1.0);
}

#[test]
fn negative_numbers_read_as_twos_complement() {
    let data = [0xFF, 0xFE, 0x80, 0x00, 0x00, 0x00, 0xFF, 0xFF, 0xFF, 0xFF, 0xFF, 0xFF, 0xFF, 0xFF];
    let mut reader = BinaryReader::new(&data);
    assert_eq!(reader.read_i16().unwrap(), -2);
    assert_eq!(reader.read_i32().unwrap(), i32::MIN);
    assert_eq!(reader.read_i64().unwrap(), -1);
    assert_eq!(reader.index, data.len());
}

#[test]
fn truncated_reads_fail_and_keep_position() {
    let data = [0x01, 0x02, 0x03];
    let mut index = 1_usize;
    assert_eq!(read_i32(&data, &mut index), Err(NbtError::TruncatedInput));
    assert_eq!(index, 1);
    assert_eq!(read_u16(&data, &mut index), Ok(0x0203));
    assert_eq!(index, 3);
    let mut reader = BinaryReader::new(&data[..0]);
    assert_eq!(reader.read_type(), Err(NbtError::TruncatedInput));
}

#[test]
fn string_longer_than_buffer_is_truncated() {
    let data = [0, 9, 72, 69];
    let mut index = 0_usize;
    assert_eq!(read_string(&data, &mut index), Err(NbtError::TruncatedInput));
}

#[test]
fn invalid_utf8_is_refused() {
    let data = [0, 2, 0xC3, 0x28];
    let mut index = 0_usize;
    assert_eq!(read_string(&data, &mut index), Err(NbtError::InvalidUtf8));
}

#[test]
fn empty_name_reads_as_none() {
    let data = [0, 0, 0, 3, 97, 98, 99];
    let mut reader = BinaryReader::new(&data);
    assert_eq!(reader.read_name().unwrap(), None);
    assert_eq!(reader.read_name().unwrap(), Some(String::from("abc")));
}

#[test]
fn arrays_with_non_positive_count_are_empty() {
    let data = [0xFF, 0xFF, 0xFF, 0xFF, 0, 0, 0, 2, 0, 0, 0, 7, 0xFF, 0xFF, 0xFF, 0xF9];
    let mut reader = BinaryReader::new(&data);
    assert_eq!(reader.read_byte_array().unwrap(), Vec::<i8>::new());
    assert_eq!(reader.read_int_array().unwrap(), vec![7, -7]);
    let short = [0, 0, 0, 2, 1];
    let mut reader = BinaryReader::new(&short);
    assert_eq!(reader.read_byte_array(), Err(NbtError::TruncatedInput));
}
