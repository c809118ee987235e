use flate2::read::{GzEncoder, ZlibEncoder};
use flate2::Compression;
use minecraft_world_optimizer::chunk::{Chunk, ChunkError, MissingPosition};
use minecraft_world_optimizer::cli::{check_compression_level, validate_compression_level};
use minecraft_world_optimizer::compression_scheme::{CompressionScheme, UnsupportedScheme};
use minecraft_world_optimizer::location::Location;
use minecraft_world_optimizer::optimizer::{
    optimize_region, reduce_optimize_results, OptimizeResult, RegionAction,
};
use minecraft_world_optimizer::region::{align_size, align_vec_size, get_position_in_table, Region, RegionError};
use minecraft_world_optimizer::tag::Tag;
use std::io::Read;

fn named(s: &str) -> Option<String> {
    Some(String::from(s))
}

fn chunk_tag(x: i32, z: i32, inhabited: Option<i64>, status: Option<&str>) -> Tag {
    let mut value = vec![
        Tag::Int { name: named("xPos"), value: x },
        Tag::Int { name: named("zPos"), value: z },
    ];
    if let Some(t) = inhabited {
        value.push(Tag::Long { name: named("InhabitedTime"), value: t });
    }
    if let Some(s) = status {
        value.push(Tag::String { name: named("Status"), value: String::from(s) });
    }
    Tag::Compound { name: None, value }
}

fn zlib(bytes: &[u8]) -> Vec<u8> {
    let mut out = Vec::new();
    ZlibEncoder::new(bytes, Compression::new(6)).read_to_end(&mut out).unwrap();
    out
}

fn gzip(bytes: &[u8]) -> Vec<u8> {
    let mut out = Vec::new();
    GzEncoder::new(bytes, Compression::new(6)).read_to_end(&mut out).unwrap();
    out
}

/// A region file with the given chunks, each in its own sector after the header.
fn region_file(chunks: &[(i32, i32, Tag, u8)]) -> Vec<u8> {
    let mut file = vec![0u8; 8192];
    for (x, z, tag, scheme) in chunks {
        let raw = tag.to_bytes();
        let payload = match scheme {
            1 => gzip(&raw),
            2 => zlib(&raw),
            _ => raw,
        };
        let sector = (file.len() / 4096) as u32;
        let slot = (4 * ((x & 31) + (z & 31) * 32)) as usize;
        file[slot..slot + 4].copy_from_slice(&((sector << 8) | 1).to_be_bytes());
        file[4096 + slot..4096 + slot + 4].copy_from_slice(&(1000 + sector).to_be_bytes());
        file.extend_from_slice(&((payload.len() + 1) as u32).to_be_bytes());
        file.push(*scheme);
        file.extend_from_slice(&payload);
        let aligned = file.len().div_ceil(4096) * 4096;
        file.resize(aligned, 0);
    }
    file
}

#[test]
fn test_align_vec_size() {
    let mut vec_500 = vec![0; 500];
    align_vec_size(&mut vec_500);
    assert_eq!(4096, vec_500.len());

    let mut vec_4096 = vec![0; 4096];
    align_vec_size(&mut vec_4096);
    assert_eq!(4096, vec_4096.len());

    let mut vec_4097 = vec![0; 4097];
    align_vec_size(&mut vec_4097);
    assert_eq!(8192, vec_4097.len());
}

#[test]
fn align_size_rounds_up_and_is_idempotent() {
    for n in [0_usize, 1, 4095, 4096, 4097, 10000, 123456] {
        let a = align_size(n);
        assert_eq!(a % 4096, 0);
        assert!(a >= n && a < n + 4096);
        assert_eq!(align_size(a), a);
    }
    assert_eq!(align_size(0), 0);
    assert_eq!(align_size(4097), 8192);
}

#[test]
fn grid_cell_index() {
    assert_eq!(get_position_in_table(0, 0), 0);
    assert_eq!(get_position_in_table(1, 0), 4);
    assert_eq!(get_position_in_table(0, 1), 128);
    assert_eq!(get_position_in_table(-1, -1), 4092);
    assert_eq!(get_position_in_table(33, 32), 4);
}

#[test]
fn short_file_is_no_region() {
    assert!(matches!(Region::from_bytes(&[0u8; 8191]), Err(RegionError::HeaderTooShort)));
    let empty = Region::from_bytes(&[0u8; 8192]).unwrap();
    assert!(empty.is_empty());
    assert_eq!(empty.get_chunk_count(), 0);
}

#[test]
fn one_chunk_survives_rewrite() {
    let tag = chunk_tag(0, 0, Some(50), Some("minecraft:full"));
    let file = region_file(&[(0, 0, chunk_tag(0, 0, Some(50), Some("minecraft:full")), 2)]);
    let region = Region::from_bytes(&file).unwrap();
    assert_eq!(region.get_chunk_count(), 1);
    let rewritten = region.to_bytes(6);
    assert_eq!(rewritten.len() % 4096, 0);
    assert_eq!(&rewritten[0..4], &[0, 0, 2, 1]);
    assert_eq!(&rewritten[4096..4100], &1002_u32.to_be_bytes());
    let again = Region::from_bytes(&rewritten).unwrap();
    assert_eq!(again.get_chunk_count(), 1);
    let chunk = &again.get_chunks()[0];
    assert_eq!(chunk.nbt, tag);
    assert_eq!(chunk.get_position(), Ok((0, 0)));
    assert_eq!(chunk.location.get_timestamp(), 1002);
}

#[test]
fn generated_slots_each_load_one_chunk() {
    let file = region_file(&[
        (0, 0, chunk_tag(0, 0, Some(1), None), 2),
        (5, 7, chunk_tag(5, 7, Some(2), None), 1),
        (31, 31, chunk_tag(31, 31, Some(3), None), 0),
    ]);
    let region = Region::from_bytes(&file).unwrap();
    assert_eq!(region.get_chunk_count(), 3);
    let positions: Vec<_> = region.get_chunks().iter().map(|c| c.get_position().unwrap()).collect();
    assert_eq!(positions, vec![(0, 0), (5, 7), (31, 31)]);
}

#[test]
fn broken_chunk_is_dropped_alone() {
    let mut file = region_file(&[
        (0, 0, chunk_tag(0, 0, Some(1), None), 2),
        (1, 0, chunk_tag(1, 0, Some(2), None), 2),
    ]);
    // corrupt the scheme byte of the second chunk
    let second = 4096 * (u32::from_be_bytes(file[4..8].try_into().unwrap()) >> 8) as usize;
    file[second + 4] = 9;
    let region = Region::from_bytes(&file).unwrap();
    assert_eq!(region.get_chunk_count(), 1);
    assert_eq!(
        Chunk::from_location(&file, Location::from_bytes(u32::from_be_bytes(file[4..8].try_into().unwrap()), 0)).err(),
        Some(ChunkError::UnsupportedScheme(9))
    );
}

#[test]
fn chunk_errors() {
    let file = vec![0u8; 8192];
    assert_eq!(
        Chunk::from_location(&file, Location::from_bytes(0x00000301, 0)).err(),
        Some(ChunkError::TruncatedInput)
    );
    let mut file = vec![0u8; 8192 + 4096];
    file[8192..8196].copy_from_slice(&5_u32.to_be_bytes());
    file[8196] = 2;
    file[8197..8201].copy_from_slice(&[1, 2, 3, 4]);
    assert_eq!(
        Chunk::from_location(&file, Location::from_bytes(0x00000201, 0)).err(),
        Some(ChunkError::Decompression)
    );
    file[8196] = 0;
    assert!(matches!(
        Chunk::from_location(&file, Location::from_bytes(0x00000201, 0)).err(),
        Some(ChunkError::Nbt(_))
    ));
}

#[test]
fn chunk_encoding_is_framed_zlib() {
    let chunk = Chunk { nbt: chunk_tag(3, 4, None, None), location: Location::from_bytes(0x201, 0) };
    let bytes = chunk.to_bytes(6);
    let compressed = zlib(&chunk.nbt.to_bytes());
    assert_eq!(&bytes[0..4], &((compressed.len() + 1) as u32).to_be_bytes());
    assert_eq!(bytes[4], 2);
    assert_eq!(&bytes[5..], &compressed[..]);
    assert_eq!(
        chunk.to_bytes_compression_scheme(CompressionScheme::Gzip, &[7, 8]),
        vec![0, 0, 0, 3, 1, 7, 8]
    );
}

#[test]
fn missing_position() {
    let chunk = Chunk {
        nbt: Tag::Compound { name: None, value: vec![Tag::Int { name: named("xPos"), value: 1 }] },
        location: Location::from_bytes(0x201, 0),
    };
    assert_eq!(chunk.get_position(), Err(MissingPosition));
}

#[test]
fn retention_policy() {
    let make = |inhabited, status| Chunk {
        nbt: chunk_tag(0, 0, inhabited, status),
        location: Location::from_bytes(0x201, 0),
    };
    assert!(make(Some(0), Some("minecraft:full")).should_delete());
    assert!(make(Some(0), Some("minecraft:features")).should_delete());
    assert!(make(Some(100), Some("minecraft:features")).should_delete());
    assert!(make(None, Some("minecraft:empty")).should_delete());
    assert!(!make(Some(100), Some("minecraft:full")).should_delete());
    assert!(!make(None, None).should_delete());
    assert!(!make(Some(5), None).should_delete());
}

#[test]
fn compression_scheme_bytes() {
    assert_eq!(CompressionScheme::from_u8(0), Ok(CompressionScheme::Uncompressed));
    assert_eq!(CompressionScheme::from_u8(1), Ok(CompressionScheme::Gzip));
    assert_eq!(CompressionScheme::from_u8(2), Ok(CompressionScheme::Zlib));
    assert_eq!(CompressionScheme::from_u8(3), Err(UnsupportedScheme { byte: 3 }));
    assert_eq!(CompressionScheme::Zlib.to_u8(), 2);
    assert_eq!(CompressionScheme::Gzip.to_u8(), 1);
    assert_eq!(CompressionScheme::Uncompressed.to_u8(), 3);
    assert_eq!(CompressionScheme::Zlib.decode(&zlib(b"abc")), Some(b"abc".to_vec()));
    assert_eq!(CompressionScheme::Gzip.decode(&gzip(b"abc")), Some(b"abc".to_vec()));
    assert_eq!(CompressionScheme::Uncompressed.decode(b"abc"), Some(b"abc".to_vec()));
    assert_eq!(CompressionScheme::Zlib.decode(b"abc"), None);
}

#[test]
fn optimize_drops_flagged_chunks() {
    let keep = chunk_tag(1, 0, Some(10), Some("minecraft:full"));
    let file = region_file(&[
        (0, 0, chunk_tag(0, 0, Some(0), Some("minecraft:full")), 2),
        (1, 0, chunk_tag(1, 0, Some(10), Some("minecraft:full")), 2),
        (2, 0, chunk_tag(2, 0, Some(10), Some("minecraft:noise")), 2),
    ]);
    let before = file.clone();
    let (check, action) = optimize_region(&file, false, 6);
    assert_eq!(action, RegionAction::Keep);
    assert_eq!(file, before);
    let (write, action) = optimize_region(&file, true, 6);
    assert_eq!(check, write);
    assert_eq!(write, OptimizeResult { total_chunks: 3, deleted_chunks: 2, deleted_regions: 0 });
    let RegionAction::Write(bytes) = action else { panic!("expected a rewrite") };
    let region = Region::from_bytes(&bytes).unwrap();
    assert_eq!(region.get_chunk_count(), 1);
    assert_eq!(region.get_chunks()[0].nbt, keep);
}

#[test]
fn optimize_deletes_region_when_all_flagged() {
    let file = region_file(&[
        (0, 0, chunk_tag(0, 0, Some(0), None), 2),
        (1, 0, chunk_tag(1, 0, None, Some("minecraft:empty")), 2),
    ]);
    let (check, action) = optimize_region(&file, false, 6);
    assert_eq!(action, RegionAction::Keep);
    assert_eq!(check, OptimizeResult { total_chunks: 2, deleted_chunks: 2, deleted_regions: 1 });
    let (write, action) = optimize_region(&file, true, 6);
    assert_eq!(write, check);
    assert_eq!(action, RegionAction::Delete);
}

#[test]
fn optimize_deletes_invalid_region() {
    let (result, action) = optimize_region(&[1, 2, 3], true, 6);
    assert_eq!(result, OptimizeResult { total_chunks: 0, deleted_chunks: 0, deleted_regions: 1 });
    assert_eq!(action, RegionAction::Delete);
    let (_, action) = optimize_region(&[1, 2, 3], false, 6);
    assert_eq!(action, RegionAction::Keep);
}

#[test]
fn remove_by_index_keeps_order() {
    let file = region_file(&[
        (0, 0, chunk_tag(0, 0, Some(1), None), 2),
        (1, 0, chunk_tag(1, 0, Some(2), None), 2),
        (2, 0, chunk_tag(2, 0, Some(3), None), 2),
    ]);
    let mut region = Region::from_bytes(&file).unwrap();
    region.remove_chunk_by_index(1);
    let positions: Vec<_> = region.get_chunks().iter().map(|c| c.get_position().unwrap()).collect();
    assert_eq!(positions, vec![(0, 0), (2, 0)]);
    region.remove_chunk_by_index(0);
    region.remove_chunk_by_index(0);
    assert!(region.is_empty());
}

#[test]
fn results_add_up() {
    let results = [
        OptimizeResult { total_chunks: 3, deleted_chunks: 1, deleted_regions: 0 },
        OptimizeResult { total_chunks: 5, deleted_chunks: 5, deleted_regions: 1 },
    ];
    assert_eq!(
        reduce_optimize_results(&results),
        OptimizeResult { total_chunks: 8, deleted_chunks: 6, deleted_regions: 1 }
    );
    assert_eq!(reduce_optimize_results(&[]), OptimizeResult::default());
}

#[test]
fn compression_level_argument() {
    assert_eq!(validate_compression_level("6"), Ok(6));
    assert_eq!(validate_compression_level("0"), Ok(0));
    assert_eq!(validate_compression_level("9"), Ok(9));
    let message = String::from("Compression level must be an integer between 0 and 9");
    assert_eq!(validate_compression_level("10"), Err(message.clone()));
    assert_eq!(validate_compression_level("x"), Err(message.clone()));
    assert_eq!(check_compression_level(None), Err(message));
}
