//! Bounds-checked big-endian readers over a byte buffer and a position.
//! Every read fails with `TruncatedInput` when too few bytes remain and then
//! leaves the position where it was.
use vstd::prelude::*;
use vstd::utf8::{decode_utf8, valid_utf8};
use crate::bytes::{u16_of, u32_of, u64_of};

verus! {

/// What can go wrong while decoding the tag format.
#[derive(Debug, Clone, Copy, PartialEq, Eq, Structural)]
pub enum NbtError {
    /// The buffer ends before a field does.
    TruncatedInput,
    /// A string's bytes are not valid UTF-8.
    InvalidUtf8,
    /// A type byte outside the thirteen known tag types.
    UnsupportedTagType(u8),
}

/// Whether `n` bytes remain at `pos`.
pub open spec fn fits(b: Seq<u8>, pos: int, n: int) -> bool {
    0 <= pos && pos + n <= b.len()
}

/// The string stored at `pos`: a 16-bit byte count, then that many UTF-8 bytes.
pub open spec fn spec_read_string(b: Seq<u8>, pos: int) -> Result<(Seq<char>, int), NbtError> {
    if !fits(b, pos, 2) {
        Err(NbtError::TruncatedInput)
    } else {
        let end = pos + 2 + u16_of(b.subrange(pos, pos + 2)) as int;
        if end > b.len() {
            Err(NbtError::TruncatedInput)
        } else if !valid_utf8(b.subrange(pos + 2, end)) {
            Err(NbtError::InvalidUtf8)
        } else {
            Ok((decode_utf8(b.subrange(pos + 2, end)), end))
        }
    }
}

/// A name is a string; the empty string stands for no name.
pub open spec fn spec_read_name(b: Seq<u8>, pos: int) -> Result<(Option<Seq<char>>, int), NbtError> {
    match spec_read_string(b, pos) {
        Ok((s, p)) => Ok((
            if s.len() == 0 {
                None
            } else {
                Some(s)
            },
            p,
        )),
        Err(e) => Err(e),
    }
}

/// Relies on `String::from_utf8`: it accepts exactly the valid UTF-8 byte
/// sequences and yields the characters they encode.
#[verifier::external_body]
fn string_from_utf8(bytes: Vec<u8>) -> (r: Option<String>)
    ensures
        r is Some <==> valid_utf8(bytes@),
        r is Some ==> r->0@ == decode_utf8(bytes@),
{
    String::from_utf8(bytes).ok()
}

pub fn read_u8(raw: &[u8], index: &mut usize) -> (r: Result<u8, NbtError>)
    ensures
        fits(raw@, *old(index) as int, 1) ==> r == Ok::<u8, NbtError>(raw@[*old(index) as int])
            && *final(index) == *old(index) + 1,
        !fits(raw@, *old(index) as int, 1) ==> r == Err::<u8, NbtError>(NbtError::TruncatedInput)
            && *final(index) == *old(index),
{
    if *index >= raw.len() {
        return Err(NbtError::TruncatedInput);
    }
    let v = raw[*index];
    *index = *index + 1;
    Ok(v)
}

pub fn read_i8(raw: &[u8], index: &mut usize) -> (r: Result<i8, NbtError>)
    ensures
        fits(raw@, *old(index) as int, 1) ==> r == Ok::<i8, NbtError>(
            raw@[*old(index) as int] as i8,
        ) && *final(index) == *old(index) + 1,
        !fits(raw@, *old(index) as int, 1) ==> r == Err::<i8, NbtError>(NbtError::TruncatedInput)
            && *final(index) == *old(index),
{
    match read_u8(raw, index) {
        Ok(v) => Ok(v as i8),
        Err(e) => Err(e),
    }
}

pub fn read_u16(raw: &[u8], index: &mut usize) -> (r: Result<u16, NbtError>)
    ensures
        fits(raw@, *old(index) as int, 2) ==> r == Ok::<u16, NbtError>(
            u16_of(raw@.subrange(*old(index) as int, *old(index) + 2)),
        ) && *final(index) == *old(index) + 2,
        !fits(raw@, *old(index) as int, 2) ==> r == Err::<u16, NbtError>(NbtError::TruncatedInput)
            && *final(index) == *old(index),
{
    if raw.len() < 2 || *index > raw.len() - 2 {
        return Err(NbtError::TruncatedInput);
    }
    let i = *index;
    let v = (raw[i] as u16) * 0x100 + raw[i + 1] as u16;
    *index = i + 2;
    Ok(v)
}

pub fn read_i16(raw: &[u8], index: &mut usize) -> (r: Result<i16, NbtError>)
    ensures
        fits(raw@, *old(index) as int, 2) ==> r == Ok::<i16, NbtError>(
            u16_of(raw@.subrange(*old(index) as int, *old(index) + 2)) as i16,
        ) && *final(index) == *old(index) + 2,
        !fits(raw@, *old(index) as int, 2) ==> r == Err::<i16, NbtError>(NbtError::TruncatedInput)
            && *final(index) == *old(index),
{
    match read_u16(raw, index) {
        Ok(v) => Ok(v as i16),
        Err(e) => Err(e),
    }
}

pub fn read_u32(raw: &[u8], index: &mut usize) -> (r: Result<u32, NbtError>)
    ensures
        fits(raw@, *old(index) as int, 4) ==> r == Ok::<u32, NbtError>(
            u32_of(raw@.subrange(*old(index) as int, *old(index) + 4)),
        ) && *final(index) == *old(index) + 4,
        !fits(raw@, *old(index) as int, 4) ==> r == Err::<u32, NbtError>(NbtError::TruncatedInput)
            && *final(index) == *old(index),
{
    if raw.len() < 4 || *index > raw.len() - 4 {
        return Err(NbtError::TruncatedInput);
    }
    let i = *index;
    let v = (raw[i] as u32) * 0x1000000 + (raw[i + 1] as u32) * 0x10000 + (raw[i + 2] as u32)
        * 0x100 + raw[i + 3] as u32;
    *index = i + 4;
    Ok(v)
}

pub fn read_i32(raw: &[u8], index: &mut usize) -> (r: Result<i32, NbtError>)
    ensures
        fits(raw@, *old(index) as int, 4) ==> r == Ok::<i32, NbtError>(
            u32_of(raw@.subrange(*old(index) as int, *old(index) + 4)) as i32,
        ) && *final(index) == *old(index) + 4,
        !fits(raw@, *old(index) as int, 4) ==> r == Err::<i32, NbtError>(NbtError::TruncatedInput)
            && *final(index) == *old(index),
{
    match read_u32(raw, index) {
        Ok(v) => Ok(v as i32),
        Err(e) => Err(e),
    }
}

pub fn read_u64(raw: &[u8], index: &mut usize) -> (r: Result<u64, NbtError>)
    ensures
        fits(raw@, *old(index) as int, 8) ==> r == Ok::<u64, NbtError>(
            u64_of(raw@.subrange(*old(index) as int, *old(index) + 8)),
        ) && *final(index) == *old(index) + 8,
        !fits(raw@, *old(index) as int, 8) ==> r == Err::<u64, NbtError>(NbtError::TruncatedInput)
            && *final(index) == *old(index),
{
    if raw.len() < 8 || *index > raw.len() - 8 {
        return Err(NbtError::TruncatedInput);
    }
    let ghost start = *index as int;
    let hi = read_u32(raw, index).unwrap();
    let lo = read_u32(raw, index).unwrap();
    assert(raw@.subrange(start, start + 8).subrange(0, 4) =~= raw@.subrange(start, start + 4));
    assert(raw@.subrange(start, start + 8).subrange(4, 8) =~= raw@.subrange(start + 4, start + 8));
    Ok((hi as u64) * 0x100000000 + lo as u64)
}

pub fn read_i64(raw: &[u8], index: &mut usize) -> (r: Result<i64, NbtError>)
    ensures
        fits(raw@, *old(index) as int, 8) ==> r == Ok::<i64, NbtError>(
            u64_of(raw@.subrange(*old(index) as int, *old(index) + 8)) as i64,
        ) && *final(index) == *old(index) + 8,
        !fits(raw@, *old(index) as int, 8) ==> r == Err::<i64, NbtError>(NbtError::TruncatedInput)
            && *final(index) == *old(index),
{
    match read_u64(raw, index) {
        Ok(v) => Ok(v as i64),
        Err(e) => Err(e),
    }
}

/// Reads a string: a 16-bit byte count, then that many bytes of UTF-8.
pub fn read_string(raw: &[u8], index: &mut usize) -> (r: Result<String, NbtError>)
    ensures
        match spec_read_string(raw@, *old(index) as int) {
            Ok((s, p)) => r is Ok && r->Ok_0@ == s && *final(index) == p,
            Err(e) => r == Err::<String, NbtError>(e),
        },
        *old(index) <= *final(index),
        *old(index) <= raw@.len() ==> *final(index) <= raw@.len(),
{
    let size = read_u16(raw, index)?;
    let start = *index;
    if size as usize > raw.len() - start {
        return Err(NbtError::TruncatedInput);
    }
    let end = start + size as usize;
    let mut bytes: Vec<u8> = Vec::new();
    let mut i = start;
    while i < end
        invariant
            start <= i <= end <= raw@.len(),
            bytes@ == raw@.subrange(start as int, i as int),
        decreases end - i,
    {
        bytes.push(raw[i]);
        i = i + 1;
        assert(bytes@ =~= raw@.subrange(start as int, i as int));
    }
    *index = end;
    match string_from_utf8(bytes) {
        Some(s) => Ok(s),
        None => Err(NbtError::InvalidUtf8),
    }
}

/// Reads a name; the empty string stands for no name.
pub fn read_name(raw: &[u8], index: &mut usize) -> (r: Result<Option<String>, NbtError>)
    ensures
        match spec_read_name(raw@, *old(index) as int) {
            Ok((n, p)) => r is Ok && crate::tag::name_model(r->Ok_0) == n && *final(index) == p,
            Err(e) => r == Err::<Option<String>, NbtError>(e),
        },
        *old(index) <= *final(index),
        *old(index) <= raw@.len() ==> *final(index) <= raw@.len(),
{
    let s = read_string(raw, index)?;
    if s.as_str().is_empty() {
        Ok(None)
    } else {
        Ok(Some(s))
    }
}

/// Reads a type byte.
pub fn read_type(raw: &[u8], index: &mut usize) -> (r: Result<u8, NbtError>)
    ensures
        fits(raw@, *old(index) as int, 1) ==> r == Ok::<u8, NbtError>(raw@[*old(index) as int])
            && *final(index) == *old(index) + 1,
        !fits(raw@, *old(index) as int, 1) ==> r == Err::<u8, NbtError>(NbtError::TruncatedInput)
            && *final(index) == *old(index),
{
    read_u8(raw, index)
}


/// The element count stored at `pos` as a 32-bit signed integer.
pub open spec fn count_at(b: Seq<u8>, pos: int) -> int {
    u32_of(b.subrange(pos, pos + 4)) as i32 as int
}

/// An array stored at `pos`: a 32-bit signed count, then that many elements
/// of `width` bytes each; a count that is not positive stands for none.
/// Yields the position of each element and the end position.
pub open spec fn spec_array_span(b: Seq<u8>, pos: int, width: int) -> Result<(int, int), NbtError> {
    if !fits(b, pos, 4) {
        Err(NbtError::TruncatedInput)
    } else if count_at(b, pos) <= 0 {
        Ok((0, pos + 4))
    } else if !fits(b, pos + 4, count_at(b, pos) * width) {
        Err(NbtError::TruncatedInput)
    } else {
        Ok((count_at(b, pos), pos + 4 + count_at(b, pos) * width))
    }
}

pub open spec fn spec_read_byte_array(b: Seq<u8>, pos: int) -> Result<(Seq<i8>, int), NbtError> {
    match spec_array_span(b, pos, 1) {
        Ok((n, end)) => Ok((Seq::new(n as nat, |i: int| b[pos + 4 + i] as i8), end)),
        Err(e) => Err(e),
    }
}

pub open spec fn spec_read_int_array(b: Seq<u8>, pos: int) -> Result<(Seq<i32>, int), NbtError> {
    match spec_array_span(b, pos, 4) {
        Ok((n, end)) => Ok((
            Seq::new(
                n as nat,
                |i: int| u32_of(b.subrange(pos + 4 + 4 * i, pos + 8 + 4 * i)) as i32,
            ),
            end,
        )),
        Err(e) => Err(e),
    }
}

pub open spec fn spec_read_long_array(b: Seq<u8>, pos: int) -> Result<(Seq<i64>, int), NbtError> {
    match spec_array_span(b, pos, 8) {
        Ok((n, end)) => Ok((
            Seq::new(
                n as nat,
                |i: int| u64_of(b.subrange(pos + 4 + 8 * i, pos + 12 + 8 * i)) as i64,
            ),
            end,
        )),
        Err(e) => Err(e),
    }
}

/// Reads the count of an array and checks that its `width`-byte elements fit.
fn read_array_span(raw: &[u8], index: &mut usize, width: usize) -> (r: Result<usize, NbtError>)
    requires
        1 <= width <= 8,
    ensures
        match spec_array_span(raw@, *old(index) as int, width as int) {
            Ok((n, end)) => r == Ok::<usize, NbtError>(n as usize) && *final(index) == *old(index)
                + 4 && end == *final(index) + n * width,
            Err(e) => r == Err::<usize, NbtError>(e),
        },
        *old(index) <= *final(index) <= *old(index) + 4,
        *old(index) <= raw@.len() ==> *final(index) <= raw@.len(),
{
    let ghost pos = *index as int;
    let count = read_i32(raw, index)?;
    assert(count as int == count_at(raw@, pos));
    if count <= 0 {
        assert(0 * width == 0);
        return Ok(0);
    }
    let n = count as usize;
    if n > (raw.len() - *index) / width {
        proof {
            assert(n * width > raw.len() - *index) by (nonlinear_arith)
                requires
                    n > (raw.len() - *index) / width as int,
                    width >= 1,
            ;
        }
        return Err(NbtError::TruncatedInput);
    }
    proof {
        assert(n * width <= raw.len() - *index) by (nonlinear_arith)
            requires
                n <= (raw.len() - *index) / width as int,
                width >= 1,
        ;
    }
    Ok(n)
}

pub fn read_byte_array(raw: &[u8], index: &mut usize) -> (r: Result<Vec<i8>, NbtError>)
    ensures
        match spec_read_byte_array(raw@, *old(index) as int) {
            Ok((v, p)) => r is Ok && r->Ok_0@ == v && *final(index) == p,
            Err(e) => r == Err::<Vec<i8>, NbtError>(e),
        },
        *old(index) <= *final(index),
        *old(index) <= raw@.len() ==> *final(index) <= raw@.len(),
{
    let ghost pos = *index as int;
    let n = read_array_span(raw, index, 1)?;
    let mut values: Vec<i8> = Vec::new();
    let mut i: usize = 0;
    while i < n
        invariant
            0 <= i <= n,
            *index == pos + 4 + i,
            pos + 4 + n <= raw@.len(),
            values@ =~= Seq::new(i as nat, |j: int| raw@[pos + 4 + j] as i8),
        decreases n - i,
    {
        let v = read_i8(raw, index)?;
        values.push(v);
        i = i + 1;
    }
    Ok(values)
}

pub fn read_int_array(raw: &[u8], index: &mut usize) -> (r: Result<Vec<i32>, NbtError>)
    ensures
        match spec_read_int_array(raw@, *old(index) as int) {
            Ok((v, p)) => r is Ok && r->Ok_0@ == v && *final(index) == p,
            Err(e) => r == Err::<Vec<i32>, NbtError>(e),
        },
        *old(index) <= *final(index),
        *old(index) <= raw@.len() ==> *final(index) <= raw@.len(),
{
    let ghost pos = *index as int;
    let n = read_array_span(raw, index, 4)?;
    let mut values: Vec<i32> = Vec::new();
    let mut i: usize = 0;
    while i < n
        invariant
            0 <= i <= n,
            *index == pos + 4 + 4 * i,
            pos + 4 + 4 * n <= raw@.len(),
            values@ =~= Seq::new(
                i as nat,
                |j: int| u32_of(raw@.subrange(pos + 4 + 4 * j, pos + 8 + 4 * j)) as i32,
            ),
        decreases n - i,
    {
        let v = read_i32(raw, index)?;
        values.push(v);
        i = i + 1;
    }
    Ok(values)
}

pub fn read_long_array(raw: &[u8], index: &mut usize) -> (r: Result<Vec<i64>, NbtError>)
    ensures
        match spec_read_long_array(raw@, *old(index) as int) {
            Ok((v, p)) => r is Ok && r->Ok_0@ == v && *final(index) == p,
            Err(e) => r == Err::<Vec<i64>, NbtError>(e),
        },
        *old(index) <= *final(index),
        *old(index) <= raw@.len() ==> *final(index) <= raw@.len(),
{
    let ghost pos = *index as int;
    let n = read_array_span(raw, index, 8)?;
    let mut values: Vec<i64> = Vec::new();
    let mut i: usize = 0;
    while i < n
        invariant
            0 <= i <= n,
            *index == pos + 4 + 8 * i,
            pos + 4 + 8 * n <= raw@.len(),
            values@ =~= Seq::new(
                i as nat,
                |j: int| u64_of(raw@.subrange(pos + 4 + 8 * j, pos + 12 + 8 * j)) as i64,
            ),
        decreases n - i,
    {
        let v = read_i64(raw, index)?;
        values.push(v);
        i = i + 1;
    }
    Ok(values)
}

} // verus!
