//! Big-endian integer encodings shared by the tag codec and the region format.
use vstd::prelude::*;

verus! {

/// The two big-endian bytes of `v`.
pub open spec fn be16(v: u16) -> Seq<u8> {
    seq![(v / 0x100) as u8, (v % 0x100) as u8]
}

/// The four big-endian bytes of `v`.
pub open spec fn be32(v: u32) -> Seq<u8> {
    seq![
        (v / 0x1000000) as u8,
        ((v / 0x10000) % 0x100) as u8,
        ((v / 0x100) % 0x100) as u8,
        (v % 0x100) as u8,
    ]
}

/// The eight big-endian bytes of `v`.
pub open spec fn be64(v: u64) -> Seq<u8> {
    be32((v / 0x100000000) as u32) + be32((v % 0x100000000) as u32)
}

/// The unsigned value of two big-endian bytes.
pub open spec fn u16_of(b: Seq<u8>) -> u16 {
    (b[0] as int * 0x100 + b[1] as int) as u16
}

/// The unsigned value of four big-endian bytes.
pub open spec fn u32_of(b: Seq<u8>) -> u32 {
    (b[0] as int * 0x1000000 + b[1] as int * 0x10000 + b[2] as int * 0x100 + b[3] as int) as u32
}

/// The unsigned value of eight big-endian bytes.
pub open spec fn u64_of(b: Seq<u8>) -> u64 {
    (u32_of(b.subrange(0, 4)) as int * 0x100000000 + u32_of(b.subrange(4, 8)) as int) as u64
}

pub proof fn lemma_be16_round_trip(v: u16)
    ensures
        u16_of(be16(v)) == v,
        be16(v).len() == 2,
{
}

pub proof fn lemma_u16_of_round_trip(b: Seq<u8>)
    requires
        b.len() == 2,
    ensures
        be16(u16_of(b)) == b,
{
    assert(be16(u16_of(b)) =~= b);
}

pub proof fn lemma_be32_round_trip(v: u32)
    ensures
        u32_of(be32(v)) == v,
        be32(v).len() == 4,
{
}

pub proof fn lemma_u32_of_round_trip(b: Seq<u8>)
    requires
        b.len() == 4,
    ensures
        be32(u32_of(b)) == b,
{
    assert(be32(u32_of(b)) =~= b);
}

pub proof fn lemma_be64_round_trip(v: u64)
    ensures
        u64_of(be64(v)) == v,
        be64(v).len() == 8,
{
    let hi = (v / 0x100000000) as u32;
    let lo = (v % 0x100000000) as u32;
    lemma_be32_round_trip(hi);
    lemma_be32_round_trip(lo);
    assert(be64(v).subrange(0, 4) =~= be32(hi));
    assert(be64(v).subrange(4, 8) =~= be32(lo));
}

pub proof fn lemma_u64_of_round_trip(b: Seq<u8>)
    requires
        b.len() == 8,
    ensures
        be64(u64_of(b)) == b,
{
    let hi = u32_of(b.subrange(0, 4));
    let lo = u32_of(b.subrange(4, 8));
    lemma_u32_of_round_trip(b.subrange(0, 4));
    lemma_u32_of_round_trip(b.subrange(4, 8));
    assert(u64_of(b) / 0x100000000 == hi);
    assert(u64_of(b) % 0x100000000 == lo);
    assert(be64(u64_of(b)) =~= b);
}

} // verus!
