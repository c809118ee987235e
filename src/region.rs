//! The region container: a 8192-byte header of 1024 location words and 1024
//! timestamp words, then chunk payloads on 4096-byte sector boundaries.
use vstd::prelude::*;
use crate::bytes::{be32, u32_of};
use crate::chunk::{encoded_chunk, get_u32, spec_chunk, spec_position, Chunk};
use crate::location::{spec_from_packed, spec_location_new, spec_packed, Location};
use crate::tag::TagModel;

verus! {

broadcast use vstd::std_specs::vec::group_vec_axioms, vstd::seq::group_seq_axioms;

/// The size of the header: location table, then timestamp table.
pub const HEADER_SIZE: usize = 8192;

/// The size of one header table.
pub const TABLE_SIZE: usize = 4096;

#[derive(Debug, Clone, Copy, PartialEq, Eq, Structural)]
pub enum RegionError {
    /// The file is shorter than its 8192-byte header.
    HeaderTooShort,
}

#[derive(Debug, PartialEq)]
pub struct Region {
    pub chunks: Vec<Chunk>,
}

/// A chunk as the region sees it: its tag and its location.
pub open spec fn chunk_model(c: Chunk) -> (TagModel, Location) {
    (c.nbt@, c.location)
}

impl View for Region {
    type V = Seq<(TagModel, Location)>;

    open spec fn view(&self) -> Seq<(TagModel, Location)> {
        self.chunks@.map_values(|c: Chunk| chunk_model(c))
    }
}

/// The location held by header slot `i`.
pub open spec fn slot_location(b: Seq<u8>, i: int) -> Location {
    spec_from_packed(
        u32_of(b.subrange(4 * i, 4 * i + 4)),
        u32_of(b.subrange(4096 + 4 * i, 4096 + 4 * i + 4)),
    )
}

/// Whether header slot `i` holds a generated chunk.
pub open spec fn slot_generated(b: Seq<u8>, i: int) -> bool {
    slot_location(b, i).size != 0 && slot_location(b, i).offset != 0
}

/// The chunk loaded from slot `i`: none for a slot never generated or a
/// chunk that does not decode.
pub open spec fn slot_chunk(b: Seq<u8>, i: int) -> Option<(TagModel, Location)> {
    if slot_generated(b, i) {
        match spec_chunk(b, slot_location(b, i)) {
            Ok(m) => Some((m, slot_location(b, i))),
            Err(_) => None,
        }
    } else {
        None
    }
}

/// The chunks loaded from the first `n` slots, in slot order.
pub open spec fn loaded(b: Seq<u8>, n: int) -> Seq<(TagModel, Location)>
    decreases n,
{
    if n <= 0 {
        seq![]
    } else {
        loaded(b, n - 1) + match slot_chunk(b, n - 1) {
            Some(c) => seq![c],
            None => seq![],
        }
    }
}

/// The number of generated slots among the first `n`.
pub open spec fn generated(b: Seq<u8>, n: int) -> nat
    decreases n,
{
    if n <= 0 {
        0
    } else {
        generated(b, n - 1) + if slot_generated(b, n - 1) {
            1nat
        } else {
            0nat
        }
    }
}

/// `n` rounded up to the next multiple of 4096.
pub open spec fn spec_align_size(n: int) -> int {
    ((n + 4095) / 4096) * 4096
}

/// `e` followed by zero bytes up to the next multiple of 4096.
pub open spec fn padded(e: Seq<u8>) -> Seq<u8> {
    e + Seq::new((spec_align_size(e.len() as int) - e.len()) as nat, |i: int| 0u8)
}

/// The byte index of the header word for grid cell `(x, z)`.
pub open spec fn table_index(x: i32, z: i32) -> int {
    4 * ((x & 31) + (z & 31) * 32)
}

/// `t` with the four bytes at `p` replaced by `w`.
pub open spec fn put_word(t: Seq<u8>, p: int, w: Seq<u8>) -> Seq<u8> {
    t.subrange(0, p) + w + t.subrange(p + 4, t.len() as int)
}

/// The largest payload that a 32-bit location can still place, aligned.
pub const MAX_PAYLOAD: usize = 0xFFFFF000;

/// One step of the rewrite: chunk `c` is encoded, padded and appended to the
/// data, and its new location and timestamp go into the two tables at its
/// grid cell. A chunk without a position, or whose location cannot be
/// encoded, is left out.
pub open spec fn rewrite_step(
    s: (Seq<u8>, Seq<u8>, Seq<u8>),
    c: (TagModel, Location),
    level: u32,
) -> (Seq<u8>, Seq<u8>, Seq<u8>) {
    let raw = encoded_chunk(c.0, level);
    if raw.len() > MAX_PAYLOAD || s.2.len() + 8192 > u32::MAX {
        s
    } else {
        let e = padded(raw);
        match (
            spec_location_new((s.2.len() + 8192) as u32, e.len() as u32, c.1.timestamp),
            spec_position(c.0),
        ) {
            (Ok(loc), Some((x, z))) => (
                put_word(s.0, table_index(x, z), be32(spec_packed(loc))),
                put_word(s.1, table_index(x, z), be32(loc.timestamp)),
                s.2 + e,
            ),
            _ => s,
        }
    }
}

/// The tables and data after rewriting the first `k` chunks.
pub open spec fn rewrite_state(chunks: Seq<(TagModel, Location)>, level: u32, k: int) -> (
    Seq<u8>,
    Seq<u8>,
    Seq<u8>,
)
    decreases k,
{
    if k <= 0 || k > chunks.len() {
        (Seq::new(4096, |i: int| 0u8), Seq::new(4096, |i: int| 0u8), seq![])
    } else {
        rewrite_step(rewrite_state(chunks, level, k - 1), chunks[k - 1], level)
    }
}

/// A rewritten region file: location table, timestamp table, chunk data.
pub open spec fn rewrite_bytes(chunks: Seq<(TagModel, Location)>, level: u32) -> Seq<u8> {
    let s = rewrite_state(chunks, level, chunks.len() as int);
    s.0 + s.1 + s.2
}

/// Rounds `n` up to the next multiple of 4096.
pub fn align_size(n: usize) -> (r: usize)
    requires
        n <= MAX_PAYLOAD,
    ensures
        r == spec_align_size(n as int),
{
    ((n + 4095) / 4096) * 4096
}

/// Pads `vec` with zero bytes up to the next multiple of 4096.
pub fn align_vec_size(vec: &mut Vec<u8>)
    requires
        old(vec)@.len() <= MAX_PAYLOAD,
    ensures
        final(vec)@ == padded(old(vec)@),
{
    let aligned_size = align_size(vec.len());
    proof {
        lemma_align_size(vec@.len() as int);
    }
    while vec.len() < aligned_size
        invariant
            old(vec)@.len() <= vec@.len() <= aligned_size,
            aligned_size == spec_align_size(old(vec)@.len() as int),
            vec@ == old(vec)@ + Seq::new((vec@.len() - old(vec)@.len()) as nat, |i: int| 0u8),
        decreases aligned_size - vec@.len(),
    {
        vec.push(0u8);
        assert(vec@ =~= old(vec)@ + Seq::new((vec@.len() - old(vec)@.len()) as nat, |i: int| 0u8));
    }
}

/// The byte index in a header table of grid cell `(x, z)`.
pub fn get_position_in_table(x: i32, z: i32) -> (r: usize)
    ensures
        r == table_index(x, z),
        r % 4 == 0,
        r + 4 <= 4096,
{
    let xm = x & 31;
    let zm = z & 31;
    assert(0 <= (x & 31) <= 31) by (bit_vector);
    assert(0 <= (z & 31) <= 31) by (bit_vector);
    (4 * (xm + zm * 32)) as usize
}

/// Writes the word `w` at `p` of `table`.
fn write_word(table: &mut Vec<u8>, p: usize, w: [u8; 4])
    requires
        p + 4 <= old(table)@.len(),
    ensures
        final(table)@ == put_word(old(table)@, p as int, w@),
{
    let mut i: usize = 0;
    while i < 4
        invariant
            0 <= i <= 4,
            table@.len() == old(table)@.len(),
            p + 4 <= table@.len(),
            table@ == old(table)@.subrange(0, p as int) + w@.subrange(0, i as int) + old(
                table,
            )@.subrange(p + i, old(table)@.len() as int),
        decreases 4 - i,
    {
        assert(p + i < table.len());
        table.set(p + i, w[i]);
        i = i + 1;
        assert(table@ =~= old(table)@.subrange(0, p as int) + w@.subrange(0, i as int) + old(
            table,
        )@.subrange(p + i, old(table)@.len() as int));
    }
    assert(w@.subrange(0, 4) =~= w@);
}

impl Region {
    /// Loads a region file: every generated slot whose chunk decodes, in slot
    /// order. A chunk that does not decode is left out.
    pub fn from_bytes(bytes: &[u8]) -> (r: Result<Region, RegionError>)
        ensures
            bytes@.len() < 8192 ==> r == Err::<Region, RegionError>(RegionError::HeaderTooShort),
            bytes@.len() >= 8192 ==> r is Ok && r->Ok_0@ == loaded(bytes@, 1024),
    {
        if bytes.len() < HEADER_SIZE {
            return Err(RegionError::HeaderTooShort);
        }
        let mut chunks: Vec<Chunk> = Vec::new();
        let mut i: usize = 0;
        while i < 1024
            invariant
                0 <= i <= 1024,
                bytes@.len() >= 8192,
                chunks@.map_values(|c: Chunk| chunk_model(c)) == loaded(bytes@, i as int),
            decreases 1024 - i,
        {
            let l = get_u32(bytes, 4 * i);
            let timestamp = get_u32(bytes, TABLE_SIZE + 4 * i);
            let location = Location::from_bytes(l, timestamp);
            assert(location == slot_location(bytes@, i as int));
            let ghost before = chunks@;
            if location.is_valid() {
                if let Ok(chunk) = Chunk::from_location(bytes, location) {
                    chunks.push(chunk);
                }
            }
            assert(chunks@.map_values(|c: Chunk| chunk_model(c)) =~= loaded(bytes@, i + 1));
            i = i + 1;
        }
        Ok(Region { chunks })
    }

    /// Writes the region back as a fully packed file, each chunk compressed
    /// with zlib at `level` (0 to 9) and placed after the previous one.
    pub fn to_bytes(&self, level: u32) -> (r: Vec<u8>)
        requires
            level <= 9,
        ensures
            r@ == rewrite_bytes(self@, level),
    {
        let mut data: Vec<u8> = Vec::new();
        let mut location_table: Vec<u8> = vec![0u8; TABLE_SIZE];
        let mut timestamp_table: Vec<u8> = vec![0u8; TABLE_SIZE];
        assert(location_table@ =~= Seq::new(4096, |i: int| 0u8));
        assert(timestamp_table@ =~= Seq::new(4096, |i: int| 0u8));
        let mut k: usize = 0;
        while k < self.chunks.len()
            invariant
                0 <= k <= self.chunks@.len(),
                level <= 9,
                (location_table@, timestamp_table@, data@) == rewrite_state(
                    self@,
                    level,
                    k as int,
                ),
                location_table@.len() == 4096,
                timestamp_table@.len() == 4096,
            decreases self.chunks@.len() - k,
        {
            let chunk = &self.chunks[k];
            assert(self@[k as int] == chunk_model(*chunk));
            let ghost s = (location_table@, timestamp_table@, data@);
            let mut serialized = chunk.to_bytes(level);
            if serialized.len() <= MAX_PAYLOAD && data.len() <= (u32::MAX as usize) - HEADER_SIZE {
                align_vec_size(&mut serialized);
                let new_position = (data.len() + HEADER_SIZE) as u32;
                let new_size = serialized.len() as u32;
                let new_location = Location::new(
                    new_position,
                    new_size,
                    chunk.location.get_timestamp(),
                );
                let chunk_position = chunk.get_position();
                if let (Ok(new_location), Ok((x, z))) = (new_location, chunk_position) {
                    let position_in_table = get_position_in_table(x, z);
                    write_word(
                        &mut location_table,
                        position_in_table,
                        new_location.to_location_bytes(),
                    );
                    write_word(
                        &mut timestamp_table,
                        position_in_table,
                        new_location.to_timestamp_bytes(),
                    );
                    data.append(&mut serialized);
                }
            }
            assert((location_table@, timestamp_table@, data@) == rewrite_step(
                s,
                self@[k as int],
                level,
            ));
            k = k + 1;
        }
        let mut result: Vec<u8> = Vec::new();
        result.append(&mut location_table);
        result.append(&mut timestamp_table);
        result.append(&mut data);
        result
    }

    pub fn get_chunks(&self) -> (r: &Vec<Chunk>)
        ensures
            r@ == self.chunks@,
    {
        &self.chunks
    }

    pub fn get_chunk_count(&self) -> (r: usize)
        ensures
            r == self@.len(),
    {
        self.chunks.len()
    }

    /// Removes the chunk at `index`, keeping the order of the others.
    pub fn remove_chunk_by_index(&mut self, index: usize)
        requires
            index < old(self)@.len(),
        ensures
            final(self)@ == old(self)@.remove(index as int),
    {
        let ghost before = self.chunks@;
        self.chunks.remove(index);
        assert(self.chunks@.map_values(|c: Chunk| chunk_model(c)) =~= before.map_values(
            |c: Chunk| chunk_model(c),
        ).remove(index as int));
    }

    pub fn is_empty(&self) -> (r: bool)
        ensures
            r == (self@.len() == 0),
    {
        self.chunks.len() == 0
    }
}

proof fn lemma_align_size(n: int)
    requires
        0 <= n <= MAX_PAYLOAD,
    ensures
        n <= spec_align_size(n) < n + 4096,
        spec_align_size(n) % 4096 == 0,
        spec_align_size(n) <= MAX_PAYLOAD,
{
    assert(n <= spec_align_size(n) < n + 4096 && spec_align_size(n) % 4096 == 0) by (
    nonlinear_arith)
        requires
            0 <= n,
    ;
    assert(spec_align_size(n) <= MAX_PAYLOAD) by (nonlinear_arith)
        requires
            0 <= n <= 0xFFFFF000,
    ;
}

/// Aligning rounds up to the next multiple of 4096, by less than 4096, and
/// aligning an aligned size changes nothing.
pub proof fn law_align_size(n: int)
    requires
        0 <= n,
    ensures
        spec_align_size(n) % 4096 == 0,
        n <= spec_align_size(n) < n + 4096,
        spec_align_size(spec_align_size(n)) == spec_align_size(n),
{
    assert(n <= spec_align_size(n) < n + 4096 && spec_align_size(n) % 4096 == 0) by (
    nonlinear_arith)
        requires
            0 <= n,
    ;
    let a = spec_align_size(n);
    assert(spec_align_size(a) == a) by (nonlinear_arith)
        requires
            a % 4096 == 0,
            a >= 0,
    ;
}

/// A region whose generated slots all hold chunks that decode loads exactly
/// one chunk per generated slot; slots never generated add none.
pub proof fn law_loaded_count(b: Seq<u8>, n: int)
    requires
        0 <= n,
        forall|i: int| 0 <= i < n && slot_generated(b, i) ==> spec_chunk(b, slot_location(b, i)) is Ok,
    ensures
        loaded(b, n).len() == generated(b, n),
    decreases n,
{
    if n > 0 {
        law_loaded_count(b, n - 1);
    }
}

} // verus!
