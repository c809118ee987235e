//! One chunk: its decoded tag tree and the location it was read from.
use vstd::prelude::*;
use crate::bytes::{be32, u32_of};
use crate::compression_scheme::{
    decoded_payload, spec_scheme, zlib_encode, zlib_encoded, CompressionScheme,
};
use crate::location::Location;
use crate::parse::{parse_tag, spec_parse_tag};
use crate::readers::NbtError;
use crate::tag::{name_of, tag_bytes, Tag, TagModel};
use crate::writers::{push_all, u32_to_be};

verus! {

broadcast use vstd::std_specs::vec::group_vec_axioms, vstd::seq::group_seq_axioms;

/// Why a chunk could not be read from a region file.
#[derive(Debug, Clone, Copy, PartialEq, Eq, Structural)]
pub enum ChunkError {
    /// The payload header or the payload runs past the end of the file.
    TruncatedInput,
    /// The scheme byte names no known compression scheme.
    UnsupportedScheme(u8),
    /// The compressed stream is corrupt.
    Decompression,
    /// The decompressed bytes are not a tag.
    Nbt(NbtError),
}

/// A chunk without both grid coordinates.
#[derive(Debug, Clone, Copy, PartialEq, Eq, Structural)]
pub struct MissingPosition;

#[derive(Debug, PartialEq)]
pub struct Chunk {
    pub nbt: Tag,
    pub location: Location,
}

/// The first of `v[i..]` named `name`.
pub open spec fn find_from(v: Seq<TagModel>, name: Seq<char>, i: int) -> Option<TagModel>
    decreases v.len() - i,
{
    if i < 0 || i >= v.len() {
        None
    } else if name_of(v[i]) == Some(name) {
        Some(v[i])
    } else {
        find_from(v, name, i + 1)
    }
}

/// The first child named `name` of a compound; nothing for other tags.
pub open spec fn find_child(m: TagModel, name: Seq<char>) -> Option<TagModel> {
    match m {
        TagModel::Compound { value, .. } => find_from(value, name, 0),
        _ => None,
    }
}

/// The value of the integer child named `name`, if there is one.
pub open spec fn int_child(m: TagModel, name: Seq<char>) -> Option<i32> {
    match find_child(m, name) {
        Some(TagModel::Int { value, .. }) => Some(value),
        _ => None,
    }
}

/// The grid position held by the `xPos` and `zPos` integer children.
pub open spec fn spec_position(m: TagModel) -> Option<(i32, i32)> {
    match (int_child(m, "xPos"@), int_child(m, "zPos"@)) {
        (Some(x), Some(z)) => Some((x, z)),
        _ => None,
    }
}

/// A chunk is dropped when its `InhabitedTime` long is 0, or when its
/// `Status` string is not `"minecraft:full"`; a missing tag is no reason.
pub open spec fn spec_should_delete(m: TagModel) -> bool {
    (match find_child(m, "InhabitedTime"@) {
        Some(TagModel::Long { value, .. }) => value == 0,
        _ => false,
    }) || (match find_child(m, "Status"@) {
        Some(TagModel::Str { value, .. }) => value != "minecraft:full"@,
        _ => false,
    })
}

/// A payload as stored: its length plus one as a 32-bit big-endian word
/// (wrapping), the scheme byte, then the bytes.
pub open spec fn frame(scheme: u8, data: Seq<u8>) -> Seq<u8> {
    be32((data.len() as u32).wrapping_add(1)) + seq![scheme] + data
}

/// A chunk tag as written: serialized, compressed with zlib at `level`, framed.
/// Should the encoder fail, the serialized bytes are framed as they are.
pub open spec fn encoded_chunk(m: TagModel, level: u32) -> Seq<u8> {
    match zlib_encoded(tag_bytes(m, false, false), level) {
        Some(e) => frame(2, e),
        None => frame(2, tag_bytes(m, false, false)),
    }
}

/// The scheme and compressed bytes of the payload stored at `loc`: a 32-bit
/// length that counts the scheme byte, the scheme byte, then the bytes.
pub open spec fn spec_payload(buf: Seq<u8>, loc: Location) -> Result<
    (CompressionScheme, Seq<u8>),
    ChunkError,
> {
    let off = loc.offset * 4096;
    if off + 5 > buf.len() {
        Err(ChunkError::TruncatedInput)
    } else {
        let n = u32_of(buf.subrange(off, off + 4)) as int;
        match spec_scheme(buf[off + 4]) {
            None => Err(ChunkError::UnsupportedScheme(buf[off + 4])),
            Some(s) => if n == 0 || off + 4 + n > buf.len() {
                Err(ChunkError::TruncatedInput)
            } else {
                Ok((s, buf.subrange(off + 5, off + 4 + n)))
            },
        }
    }
}

/// The tag that the decoded bytes of a chunk hold.
pub open spec fn spec_decoded_chunk(decoded: Seq<u8>) -> Result<TagModel, ChunkError> {
    match spec_parse_tag(decoded, 0) {
        Ok((m, _)) => Ok(m),
        Err(e) => Err(ChunkError::Nbt(e)),
    }
}

/// The tag of the chunk stored at `loc`.
pub open spec fn spec_chunk(buf: Seq<u8>, loc: Location) -> Result<TagModel, ChunkError> {
    match spec_payload(buf, loc) {
        Err(e) => Err(e),
        Ok((s, p)) => match decoded_payload(s, p) {
            None => Err(ChunkError::Decompression),
            Some(d) => spec_decoded_chunk(d),
        },
    }
}

impl Tag {
    /// The first child of a compound whose name is `name`.
    pub fn find_tag(&self, name: &str) -> (r: Option<&Tag>)
        ensures
            match find_child(self@, name@) {
                Some(c) => r is Some && r->0@ == c,
                None => r is None,
            },
    {
        let target = name.to_owned();
        match self {
            Tag::Compound { name: own, value } => {
                let ghost m = self@;
                let mut i: usize = 0;
                while i < value.len()
                    invariant
                        0 <= i <= value@.len(),
                        m == self@,
                        *self == (Tag::Compound { name: *own, value: *value }),
                        target@ == name@,
                        find_child(m, name@) == find_from(crate::tag::children_of(m), name@, i as int),
                        crate::tag::children_of(m).len() == value@.len(),
                    decreases value@.len() - i,
                {
                    assert(crate::tag::children_of(m)[i as int] == value[i as int]@);
                    let found = match value[i].get_name() {
                        Some(n) => n == target,
                        None => false,
                    };
                    if found {
                        return Some(&value[i]);
                    }
                    i = i + 1;
                }
                None
            },
            _ => None,
        }
    }
}

impl Chunk {
    /// Reads the chunk stored at `location`: finds its payload, decompresses
    /// it, and parses the tag it holds.
    pub fn from_location(buf: &[u8], location: Location) -> (r: Result<Chunk, ChunkError>)
        ensures
            match spec_chunk(buf@, location) {
                Ok(m) => r is Ok && r->Ok_0.nbt@ == m && r->Ok_0.location == location,
                Err(e) => r is Err && r->Err_0 == e,
            },
    {
        let offset = location.byte_offset();
        if offset > buf.len() as u64 || buf.len() - (offset as usize) < 5 {
            return Err(ChunkError::TruncatedInput);
        }
        let off = offset as usize;
        let chunk_size = get_u32(buf, off) as usize;
        let scheme = match CompressionScheme::from_u8(buf[off + 4]) {
            Ok(s) => s,
            Err(e) => return Err(ChunkError::UnsupportedScheme(e.byte)),
        };
        if chunk_size == 0 || chunk_size > buf.len() - off - 4 {
            return Err(ChunkError::TruncatedInput);
        }
        let start = off + 5;
        let end = off + 4 + chunk_size;
        let payload = vstd::slice::slice_subrange(buf, start, end);
        match scheme.decode(payload) {
            Some(decoded) => Chunk::from_decoded(decoded.as_slice(), location),
            None => Err(ChunkError::Decompression),
        }
    }

    /// The chunk whose decompressed payload is `decoded`.
    pub fn from_decoded(decoded: &[u8], location: Location) -> (r: Result<Chunk, ChunkError>)
        ensures
            match spec_decoded_chunk(decoded@) {
                Ok(m) => r is Ok && r->Ok_0.nbt@ == m && r->Ok_0.location == location,
                Err(e) => r is Err && r->Err_0 == e,
            },
    {
        let mut index: usize = 0;
        match parse_tag(decoded, &mut index) {
            Ok(nbt) => Ok(Chunk { nbt, location }),
            Err(e) => Err(ChunkError::Nbt(e)),
        }
    }

    /// The chunk as written to a region file: its tag serialized, compressed
    /// with zlib at `level` (0 to 9), and framed.
    pub fn to_bytes(&self, level: u32) -> (r: Vec<u8>)
        requires
            level <= 9,
        ensures
            r@ == encoded_chunk(self.nbt@, level),
    {
        let decoded_bytes = self.nbt.to_bytes();
        match zlib_encode(decoded_bytes.as_slice(), level) {
            Some(encoded) => self.to_bytes_compression_scheme(
                CompressionScheme::Zlib,
                encoded.as_slice(),
            ),
            None => self.to_bytes_compression_scheme(
                CompressionScheme::Zlib,
                decoded_bytes.as_slice(),
            ),
        }
    }

    /// Frames `nbt_bytes`: length plus one, the scheme byte, the bytes.
    pub fn to_bytes_compression_scheme(
        &self,
        compression_scheme: CompressionScheme,
        nbt_bytes: &[u8],
    ) -> (r: Vec<u8>)
        ensures
            r@ == frame(compression_scheme.to_u8_spec(), nbt_bytes@),
    {
        let low = #[verifier::truncate] (nbt_bytes.len() as u32);
        let size = low.wrapping_add(1);
        let mut result = Vec::new();
        push_all(&mut result, &u32_to_be(size));
        result.push(compression_scheme.to_u8());
        push_all(&mut result, nbt_bytes);
        assert(result@ =~= frame(compression_scheme.to_u8_spec(), nbt_bytes@));
        result
    }

    /// The grid position held by the `xPos` and `zPos` integer tags.
    pub fn get_position(&self) -> (r: Result<(i32, i32), MissingPosition>)
        ensures
            match spec_position(self.nbt@) {
                Some(p) => r == Ok::<(i32, i32), MissingPosition>(p),
                None => r == Err::<(i32, i32), MissingPosition>(MissingPosition),
            },
    {
        let x = match self.nbt.find_tag("xPos") {
            Some(t) => t.get_int(),
            None => None,
        };
        let z = match self.nbt.find_tag("zPos") {
            Some(t) => t.get_int(),
            None => None,
        };
        match (x, z) {
            (Some(x), Some(z)) => Ok((*x, *z)),
            _ => Err(MissingPosition),
        }
    }

    /// Whether the retention policy drops this chunk.
    pub fn should_delete(&self) -> (r: bool)
        ensures
            r == spec_should_delete(self.nbt@),
    {
        let never_inhabited = match self.nbt.find_tag("InhabitedTime") {
            Some(t) => match t.get_long() {
                Some(v) => *v == 0,
                None => false,
            },
            None => false,
        };
        let full = "minecraft:full".to_owned();
        let not_full = match self.nbt.find_tag("Status") {
            Some(t) => match t.get_string() {
                Some(s) => !(*s == full),
                None => false,
            },
            None => false,
        };
        never_inhabited || not_full
    }
}

/// The big-endian word at `index`.
pub fn get_u32(table: &[u8], index: usize) -> (r: u32)
    requires
        index + 4 <= table@.len(),
    ensures
        r == u32_of(table@.subrange(index as int, index + 4)),
{
    (table[index] as u32) * 0x1000000 + (table[index + 1] as u32) * 0x10000 + (table[index + 2]
        as u32) * 0x100 + table[index + 3] as u32
}

/// The retention policy drops a chunk whose `InhabitedTime` is 0 whatever its
/// `Status`, drops one whose `Status` is not `"minecraft:full"` whatever its
/// `InhabitedTime`, and keeps one that was inhabited and is fully generated.
pub proof fn law_should_delete(m: TagModel)
    ensures
        (find_child(m, "InhabitedTime"@) matches Some(TagModel::Long { value, .. }) && value == 0)
            ==> spec_should_delete(m),
        (find_child(m, "Status"@) matches Some(TagModel::Str { value, .. }) && value
            != "minecraft:full"@) ==> spec_should_delete(m),
        (find_child(m, "InhabitedTime"@) matches Some(TagModel::Long { value, .. }) && value > 0)
            && (find_child(m, "Status"@) matches Some(TagModel::Str { value, .. }) && value
            == "minecraft:full"@) ==> !spec_should_delete(m),
{
}

} // verus!
