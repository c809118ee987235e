//! Where a chunk lives in a region file: an offset and a size in 4096-byte
//! sectors, and a timestamp that is carried through unchanged.
use vstd::prelude::*;
use crate::bytes::be32;
use crate::writers::u32_to_be;

verus! {

/// The size of a sector in bytes.
pub const SECTOR: u32 = 4096;

/// Why absolute byte values cannot become a [`Location`].
#[derive(Debug, Clone, Copy, PartialEq, Eq, Structural)]
pub enum LocationError {
    /// The offset or the size is not a multiple of 4096.
    Misaligned,
    /// The size spans more than 255 sectors.
    TooLarge,
}

#[derive(Debug, Clone, Copy, PartialEq, Eq, Structural)]
pub struct Location {
    /// Offset from the start of the file, in sectors.
    pub offset: u32,
    /// Number of sectors occupied; 0 for a slot never generated.
    pub size: u8,
    pub timestamp: u32,
}

/// The location of absolute byte values: both must be multiples of 4096, and
/// the size may span at most 255 sectors.
pub open spec fn spec_location_new(offset: u32, size: u32, timestamp: u32) -> Result<
    Location,
    LocationError,
> {
    if offset % 4096 != 0 || size % 4096 != 0 {
        Err(LocationError::Misaligned)
    } else if size / 4096 > 255 {
        Err(LocationError::TooLarge)
    } else {
        Ok(Location { offset: offset / 4096, size: (size / 4096) as u8, timestamp })
    }
}

/// The location stored in a location word and a timestamp word: the top 24
/// bits are the offset, the bottom 8 bits the size.
pub open spec fn spec_from_packed(l: u32, timestamp: u32) -> Location {
    Location { offset: l / 0x100, size: (l % 0x100) as u8, timestamp }
}

/// The location word of `loc`, its offset masked to 24 bits.
pub open spec fn spec_packed(loc: Location) -> u32 {
    ((loc.offset % 0x1000000) * 0x100 + loc.size) as u32
}

fn chunk_location(l: u32) -> (r: (u32, u8))
    ensures
        r.0 == l / 0x100,
        r.1 == l % 0x100,
{
    let offset = (l >> 8u32) & 0xFFFFFFu32;
    let size = l & 0xFFu32;
    assert(((l >> 8u32) & 0xFFFFFFu32) == l / 0x100) by (bit_vector);
    assert((l & 0xFFu32) == l % 0x100) by (bit_vector);
    (offset, size as u8)
}

impl Location {
    /// A location from an absolute byte offset and byte size, both multiples of 4096.
    pub fn new(offset: u32, size: u32, timestamp: u32) -> (r: Result<Location, LocationError>)
        ensures
            r == spec_location_new(offset, size, timestamp),
    {
        if offset % SECTOR != 0 || size % SECTOR != 0 {
            return Err(LocationError::Misaligned);
        }
        let size_div = size / SECTOR;
        if size_div > 255 {
            return Err(LocationError::TooLarge);
        }
        Ok(Location { offset: offset / SECTOR, size: size_div as u8, timestamp })
    }

    /// The location held by a location word and a timestamp word of the header tables.
    pub fn from_bytes(l: u32, timestamp: u32) -> (r: Location)
        ensures
            r == spec_from_packed(l, timestamp),
    {
        let (offset, size) = chunk_location(l);
        Location { offset, size, timestamp }
    }

    /// A slot whose offset or size is 0 was never generated.
    pub fn is_valid(&self) -> (r: bool)
        ensures
            r == (self.size != 0 && self.offset != 0),
    {
        self.size != 0 && self.offset != 0
    }

    /// The location word, big-endian.
    pub fn to_location_bytes(self) -> (r: [u8; 4])
        ensures
            r@ == be32(spec_packed(self)),
    {
        let raw_offset = self.offset;
        let offset = raw_offset & 0xFFFFFFu32;
        let size = self.size as u32;
        let location = (offset << 8u32) | size;
        assert(offset == raw_offset % 0x1000000) by (bit_vector)
            requires
                offset == raw_offset & 0xFFFFFFu32,
        ;
        assert(((offset << 8u32) | size) == offset * 0x100 + size) by (bit_vector)
            requires
                offset < 0x1000000,
                size < 0x100,
        ;
        u32_to_be(location)
    }

    /// The timestamp word, big-endian.
    pub fn to_timestamp_bytes(self) -> (r: [u8; 4])
        ensures
            r@ == be32(self.timestamp),
    {
        u32_to_be(self.timestamp)
    }

    /// The absolute byte offset.
    pub fn get_offset(&self) -> (r: u32)
        requires
            self.offset * 4096 <= u32::MAX,
        ensures
            r == self.offset * 4096,
    {
        self.offset * SECTOR
    }

    /// The absolute byte offset, for any offset a location word can hold.
    pub fn byte_offset(&self) -> (r: u64)
        ensures
            r == self.offset * 4096,
    {
        self.offset as u64 * SECTOR as u64
    }

    pub fn get_timestamp(&self) -> (r: u32)
        ensures
            r == self.timestamp,
    {
        self.timestamp
    }

    /// The size in bytes.
    pub fn get_size(&self) -> (r: u32)
        ensures
            r == self.size * 4096,
    {
        self.size as u32 * SECTOR
    }
}

/// Reading back the location word of a location whose offset fits in 24 bits
/// gives the same location.
pub proof fn law_packed_round_trip(loc: Location)
    requires
        loc.offset < 0x1000000,
    ensures
        spec_from_packed(spec_packed(loc), loc.timestamp) == loc,
{
}

} // verus!
