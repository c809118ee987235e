//! Encoders for the primitive fields of the tag format.
use vstd::prelude::*;
use crate::bytes::{be16, be32, be64};
use crate::tag::{count_bytes, i32_bytes, i64_bytes, i8_bytes, string_bytes};

verus! {

pub fn u16_to_be(v: u16) -> (r: [u8; 2])
    ensures
        r@ == be16(v),
{
    let r = [(v / 0x100) as u8, (v % 0x100) as u8];
    assert(r@ =~= be16(v));
    r
}

pub fn u32_to_be(v: u32) -> (r: [u8; 4])
    ensures
        r@ == be32(v),
{
    let r = [
        (v / 0x1000000) as u8,
        ((v / 0x10000) % 0x100) as u8,
        ((v / 0x100) % 0x100) as u8,
        (v % 0x100) as u8,
    ];
    assert(r@ =~= be32(v));
    r
}

pub fn u64_to_be(v: u64) -> (r: [u8; 8])
    ensures
        r@ == be64(v),
{
    let hi = u32_to_be((v / 0x100000000) as u32);
    let lo = u32_to_be((v % 0x100000000) as u32);
    let r = [hi[0], hi[1], hi[2], hi[3], lo[0], lo[1], lo[2], lo[3]];
    assert(r@ =~= be64(v));
    r
}

/// Appends the bytes of `b` to `buf`.
pub fn push_all(buf: &mut Vec<u8>, b: &[u8])
    ensures
        final(buf)@ == old(buf)@ + b@,
{
    let mut i: usize = 0;
    while i < b.len()
        invariant
            0 <= i <= b@.len(),
            buf@ == old(buf)@ + b@.subrange(0, i as int),
        decreases b@.len() - i,
    {
        buf.push(b[i]);
        i = i + 1;
        assert(buf@ =~= old(buf)@ + b@.subrange(0, i as int));
    }
    assert(b@.subrange(0, b@.len() as int) =~= b@);
}

/// A length as a 16-bit big-endian count; lengths past the range wrap.
fn size_to_u16_bytes(size: usize) -> (r: [u8; 2])
    ensures
        r@ == be16(size as u16),
{
    u16_to_be(size as u16)
}

/// A length as a 32-bit signed big-endian count, the prefix of arrays and lists.
pub fn size_to_i32_bytes(size: usize) -> (r: [u8; 4])
    ensures
        r@ == count_bytes(size as nat),
{
    u32_to_be((size as i32) as u32)
}

/// A buffer that holds only the count prefix of an array of `size` elements.
fn create_initial_buffer(size: usize) -> (r: Vec<u8>)
    ensures
        r@ == count_bytes(size as nat),
{
    let mut buffer = Vec::new();
    push_all(&mut buffer, &size_to_i32_bytes(size));
    buffer
}

/// A string as stored: its UTF-8 byte count in 16 bits, then the bytes.
pub fn write_string(input: String) -> (r: Vec<u8>)
    ensures
        r@ == string_bytes(input@),
{
    let input_bytes = input.as_str().as_bytes();
    let mut buffer = Vec::new();
    push_all(&mut buffer, &size_to_u16_bytes(input_bytes.len()));
    push_all(&mut buffer, input_bytes);
    assert(buffer@ =~= string_bytes(input@));
    buffer
}

pub fn write_array_i8(input: &[i8]) -> (r: Vec<u8>)
    ensures
        r@ == count_bytes(input@.len()) + i8_bytes(input@),
{
    let mut buffer = create_initial_buffer(input.len());
    let mut i: usize = 0;
    while i < input.len()
        invariant
            0 <= i <= input@.len(),
            buffer@ == count_bytes(input@.len()) + i8_bytes(input@.subrange(0, i as int)),
        decreases input@.len() - i,
    {
        buffer.push(input[i] as u8);
        assert(input@.subrange(0, i + 1).drop_last() =~= input@.subrange(0, i as int));
        i = i + 1;
        assert(buffer@ =~= count_bytes(input@.len()) + i8_bytes(input@.subrange(0, i as int)));
    }
    assert(input@.subrange(0, input@.len() as int) =~= input@);
    buffer
}

pub fn write_array_i32(input: &[i32]) -> (r: Vec<u8>)
    ensures
        r@ == count_bytes(input@.len()) + i32_bytes(input@),
{
    let mut buffer = create_initial_buffer(input.len());
    let mut i: usize = 0;
    while i < input.len()
        invariant
            0 <= i <= input@.len(),
            buffer@ == count_bytes(input@.len()) + i32_bytes(input@.subrange(0, i as int)),
        decreases input@.len() - i,
    {
        push_all(&mut buffer, &u32_to_be(input[i] as u32));
        assert(input@.subrange(0, i + 1).drop_last() =~= input@.subrange(0, i as int));
        i = i + 1;
        assert(buffer@ =~= count_bytes(input@.len()) + i32_bytes(input@.subrange(0, i as int)));
    }
    assert(input@.subrange(0, input@.len() as int) =~= input@);
    buffer
}

pub fn write_array_i64(input: &[i64]) -> (r: Vec<u8>)
    ensures
        r@ == count_bytes(input@.len()) + i64_bytes(input@),
{
    let mut buffer = create_initial_buffer(input.len());
    let mut i: usize = 0;
    while i < input.len()
        invariant
            0 <= i <= input@.len(),
            buffer@ == count_bytes(input@.len()) + i64_bytes(input@.subrange(0, i as int)),
        decreases input@.len() - i,
    {
        push_all(&mut buffer, &u64_to_be(input[i] as u64));
        assert(input@.subrange(0, i + 1).drop_last() =~= input@.subrange(0, i as int));
        i = i + 1;
        assert(buffer@ =~= count_bytes(input@.len()) + i64_bytes(input@.subrange(0, i as int)));
    }
    assert(input@.subrange(0, input@.len() as int) =~= input@);
    buffer
}

} // verus!
