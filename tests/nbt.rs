use minecraft_world_optimizer::parse::{parse_compound_tag, parse_list_tag, parse_tag, parse_with_type};
use minecraft_world_optimizer::readers::NbtError;
use minecraft_world_optimizer::tag::Tag;

fn hello_world_bytes() -> Vec<u8> {
    let mut data = vec![10, 0, 11];
    data.extend_from_slice(b"hello world");
    data.extend_from_slice(&[8, 0, 4]);
    data.extend_from_slice(b"name");
    data.extend_from_slice(&[0, 9]);
    data.extend_from_slice(b"Bananrama");
    data.push(0);
    data
}

fn named(s: &str) -> Option<String> {
    Some(String::from(s))
}

#[test]
fn test_hello_world() {
    let data = hello_world_bytes();
    let mut index = 0_usize;
    let result = parse_tag(&data, &mut index).unwrap();

    assert_eq!(
        result,
        Tag::Compound {
            name: Some(String::from("hello world")),
            value: Vec::from([Tag::String {
                name: Some(String::from("name")),
                value: String::from("Bananrama"),
            }])
        }
    );
    assert_eq!(index, data.len());

    let serialized = result.to_bytes();
    assert_eq!(serialized, data);
}

fn every_kind() -> Tag {
    let mut bytes = Vec::new();
    for n in 0..1000_i64 {
        bytes.push(((n * n * 255 + n * 7) % 100) as i8);
    }
    Tag::Compound {
        name: named("Level"),
        value: vec![
            Tag::Long { name: named("longTest"), value: 9223372036854775807 },
            Tag::Short { name: named("shortTest"), value: 32767 },
            Tag::String {
                name: named("stringTest"),
                value: String::from("HELLO WORLD THIS IS A TEST STRING ÅÄÖ!"),
            },
            Tag::Float { name: named("floatTest"), value: 0.498_231_470_584_869_38_f32.to_bits() },
            Tag::Int { name: named("intTest"), value: 2147483647 },
            Tag::Compound {
                name: named("nested compound test"),
                value: vec![Tag::Compound {
                    name: named("egg"),
                    value: vec![
                        Tag::String { name: named("name"), value: String::from("Eggbert") },
                        Tag::Float { name: named("value"), value: 0.5_f32.to_bits() },
                    ],
                }],
            },
            Tag::List {
                name: named("listTest (long)"),
                tag_type: 4,
                value: vec![
                    Tag::Long { name: None, value: 11 },
                    Tag::Long { name: None, value: 12 },
                ],
            },
            Tag::List {
                name: named("listTest (compound)"),
                tag_type: 10,
                value: vec![Tag::Compound {
                    name: None,
                    value: vec![Tag::Long { name: named("created-on"), value: 1264099775885 }],
                }],
            },
            Tag::List { name: named("empty"), tag_type: 0, value: vec![] },
            Tag::Byte { name: named("byteTest"), value: 127 },
            Tag::ByteArray { name: named("byteArrayTest"), value: bytes },
            Tag::Double { name: named("doubleTest"), value: 0.493_128_713_218_231_48_f64.to_bits() },
            Tag::IntArray { name: named("ints"), value: vec![1, -1, i32::MAX] },
            Tag::LongArray { name: named("longs"), value: vec![i64::MIN, 0] },
        ],
    }
}

#[test]
fn parse_of_serialized_gives_the_tag_back() {
    let tag = every_kind();
    let bytes = tag.to_bytes();
    let mut index = 0_usize;
    let parsed = parse_tag(&bytes, &mut index).unwrap();
    assert_eq!(parsed, tag);
    assert_eq!(index, bytes.len());
}

#[test]
fn serialize_of_parsed_gives_the_bytes_back() {
    let bytes = every_kind().to_bytes();
    let mut index = 0_usize;
    let parsed = parse_tag(&bytes, &mut index).unwrap();
    assert_eq!(parsed.to_bytes(), bytes);
}

#[test]
fn list_elements_carry_no_type_or_name() {
    let tag = Tag::List {
        name: None,
        tag_type: 3,
        value: vec![Tag::Int { name: None, value: 1 }, Tag::Int { name: None, value: 2 }],
    };
    assert_eq!(
        tag.to_bytes(),
        vec![9, 0, 0, 3, 0, 0, 0, 2, 0, 0, 0, 1, 0, 0, 0, 2]
    );
    let payload = [3, 0, 0, 0, 2, 0, 0, 0, 1, 0, 0, 0, 2];
    let mut index = 0_usize;
    let (tag_type, value) = parse_list_tag(&payload, &mut index).unwrap();
    assert_eq!(tag_type, 3);
    assert_eq!(value, vec![Tag::Int { name: None, value: 1 }, Tag::Int { name: None, value: 2 }]);
}

#[test]
fn end_tag_is_a_single_byte() {
    let mut index = 0_usize;
    assert_eq!(parse_tag(&[0], &mut index), Ok(Tag::End));
    assert_eq!(index, 1);
    assert_eq!(Tag::End.to_bytes(), vec![0]);
}

#[test]
fn compound_stops_at_end_marker() {
    let payload = [1, 0, 1, 97, 5, 0, 9];
    let mut index = 0_usize;
    let value = parse_compound_tag(&payload, &mut index).unwrap();
    assert_eq!(value, vec![Tag::Byte { name: named("a"), value: 5 }]);
    assert_eq!(index, 6);
}

#[test]
fn unknown_type_byte_is_refused() {
    let mut index = 0_usize;
    assert_eq!(parse_tag(&[13, 0, 0], &mut index), Err(NbtError::UnsupportedTagType(13)));
    let mut index = 0_usize;
    assert_eq!(
        parse_with_type(&[], &mut index, 200, true),
        Err(NbtError::UnsupportedTagType(200))
    );
}

#[test]
fn truncated_tag_is_refused() {
    let data = hello_world_bytes();
    let mut index = 0_usize;
    assert_eq!(parse_tag(&data[..data.len() - 1], &mut index), Err(NbtError::TruncatedInput));
    let mut index = 0_usize;
    assert_eq!(parse_tag(&[], &mut index), Err(NbtError::TruncatedInput));
}

#[test]
fn find_and_get_values() {
    let tag = every_kind();
    assert_eq!(tag.find_tag("intTest").and_then(|t| t.get_int()), Some(&2147483647));
    assert_eq!(tag.find_tag("longTest").and_then(|t| t.get_long()), Some(&i64::MAX));
    assert_eq!(
        tag.find_tag("nested compound test").and_then(|t| t.find_tag("egg")).map(|t| t.get_tag_type()),
        Some(10)
    );
    assert!(tag.find_tag("missing").is_none());
    assert!(tag.find_tag("intTest").and_then(|t| t.get_string()).is_none());
    assert_eq!(tag.get_name(), named("Level"));
}

#[test]
fn position_past_the_end_is_truncated() {
    let mut index = 5_usize;
    assert_eq!(parse_tag(&[0, 0], &mut index), Err(NbtError::TruncatedInput));
    let mut index = 3_usize;
    assert_eq!(parse_with_type(&[0, 0], &mut index, 0, false), Err(NbtError::TruncatedInput));
    let mut index = 3_usize;
    assert_eq!(parse_compound_tag(&[0, 0], &mut index), Err(NbtError::TruncatedInput));
}
