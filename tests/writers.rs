use minecraft_world_optimizer::writers::{
    size_to_i32_bytes, write_array_i32, write_array_i64, write_array_i8, write_string,
};

#[test]
fn test_read_write() {
    let parsed = write_string("HELLO".to_string());

    assert_eq!(parsed, &[0, 5, 72, 69, 76, 76, 79]);
}

#[test]
fn test_write_array_i8() {
    let parsed = write_array_i8(&[1, 2, 3, 4, 5]);

    assert_eq!(parsed, &[0, 0, 0, 5, 1, 2, 3, 4, 5]);
}

#[test]
fn test_write_array_i32() {
    let parsed = write_array_i32(&[1, 2, 3, 4, 5]);

    assert_eq!(
        parsed,
        &[0, 0, 0, 5, 0, 0, 0, 1, 0, 0, 0, 2, 0, 0, 0, 3, 0, 0, 0, 4, 0, 0, 0, 5]
    );
}

#[test]
fn test_write_array_i64() {
    let parsed = write_array_i64(&[1, 2, 3, 4, 5]);

    assert_eq!(
        parsed,
        &[
            0, 0, 0, 5, 0, 0, 0, 0, 0, 0, 0, 1, 0, 0, 0, 0, 0, 0, 0, 2, 0, 0, 0, 0, 0, 0, 0, 3,
            0, 0, 0, 0, 0, 0, 0, 4, 0, 0, 0, 0, 0, 0, 0, 5
        ]
    );
}

#[test]
fn write_string_counts_utf8_bytes() {
    assert_eq!(write_string("ÅÄ".to_string()), vec![0, 4, 0xC3, 0x85, 0xC3, 0x84]);
}

#[test]
fn negative_values_write_as_twos_complement() {
    assert_eq!(write_array_i8(&[-1]), vec![0, 0, 0, 1, 0xFF]);
    assert_eq!(write_array_i32(&[-2]), vec![0, 0, 0, 1, 0xFF, 0xFF, 0xFF, 0xFE]);
    assert_eq!(size_to_i32_bytes(258), [0, 0, 1, 2]);
}
