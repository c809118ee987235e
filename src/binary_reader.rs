//! A forward-only reader over a byte buffer, with an internal position.
use vstd::prelude::*;
use crate::bytes::{u16_of, u32_of, u64_of};
use crate::readers::{
    fits, read_byte_array, read_i16, read_i32, read_i64, read_i8, read_int_array, read_long_array,
    read_name, read_string, read_type, read_u16, read_u32, read_u64, read_u8,
    spec_read_byte_array, spec_read_int_array, spec_read_long_array, spec_read_name,
    spec_read_string, NbtError,
};
use crate::tag::name_model;

verus! {

pub struct BinaryReader<'a> {
    pub raw: &'a [u8],
    pub index: usize,
}

impl<'a> BinaryReader<'a> {
    pub fn new(raw: &'a [u8]) -> (r: Self)
        ensures
            r.raw@ == raw@,
            r.index == 0,
    {
        BinaryReader { raw, index: 0 }
    }

    pub fn read_u8(&mut self) -> (r: Result<u8, NbtError>)
        ensures
            final(self).raw == old(self).raw,
            fits(old(self).raw@, old(self).index as int, 1) ==> r == Ok::<u8, NbtError>(
                old(self).raw@[old(self).index as int],
            ) && final(self).index == old(self).index + 1,
            !fits(old(self).raw@, old(self).index as int, 1) ==> r == Err::<u8, NbtError>(
                NbtError::TruncatedInput,
            ) && final(self).index == old(self).index,
    {
        let mut index = self.index;
        let r = read_u8(self.raw, &mut index);
        self.index = index;
        r
    }

    pub fn read_i8(&mut self) -> (r: Result<i8, NbtError>)
        ensures
            final(self).raw == old(self).raw,
            fits(old(self).raw@, old(self).index as int, 1) ==> r == Ok::<i8, NbtError>(
                old(self).raw@[old(self).index as int] as i8,
            ) && final(self).index == old(self).index + 1,
            !fits(old(self).raw@, old(self).index as int, 1) ==> r == Err::<i8, NbtError>(
                NbtError::TruncatedInput,
            ) && final(self).index == old(self).index,
    {
        let mut index = self.index;
        let r = read_i8(self.raw, &mut index);
        self.index = index;
        r
    }

    pub fn read_u16(&mut self) -> (r: Result<u16, NbtError>)
        ensures
            final(self).raw == old(self).raw,
            fits(old(self).raw@, old(self).index as int, 2) ==> r == Ok::<u16, NbtError>(
                u16_of(old(self).raw@.subrange(old(self).index as int, old(self).index as int + 2)),
            ) && final(self).index == old(self).index + 2,
            !fits(old(self).raw@, old(self).index as int, 2) ==> r == Err::<u16, NbtError>(
                NbtError::TruncatedInput,
            ) && final(self).index == old(self).index,
    {
        let mut index = self.index;
        let r = read_u16(self.raw, &mut index);
        self.index = index;
        r
    }

    pub fn read_i16(&mut self) -> (r: Result<i16, NbtError>)
        ensures
            final(self).raw == old(self).raw,
            fits(old(self).raw@, old(self).index as int, 2) ==> r == Ok::<i16, NbtError>(
                u16_of(old(self).raw@.subrange(old(self).index as int, old(self).index as int + 2)) as i16,
            ) && final(self).index == old(self).index + 2,
            !fits(old(self).raw@, old(self).index as int, 2) ==> r == Err::<i16, NbtError>(
                NbtError::TruncatedInput,
            ) && final(self).index == old(self).index,
    {
        let mut index = self.index;
        let r = read_i16(self.raw, &mut index);
        self.index = index;
        r
    }

    pub fn read_u32(&mut self) -> (r: Result<u32, NbtError>)
        ensures
            final(self).raw == old(self).raw,
            fits(old(self).raw@, old(self).index as int, 4) ==> r == Ok::<u32, NbtError>(
                u32_of(old(self).raw@.subrange(old(self).index as int, old(self).index as int + 4)),
            ) && final(self).index == old(self).index + 4,
            !fits(old(self).raw@, old(self).index as int, 4) ==> r == Err::<u32, NbtError>(
                NbtError::TruncatedInput,
            ) && final(self).index == old(self).index,
    {
        let mut index = self.index;
        let r = read_u32(self.raw, &mut index);
        self.index = index;
        r
    }

    pub fn read_i32(&mut self) -> (r: Result<i32, NbtError>)
        ensures
            final(self).raw == old(self).raw,
            fits(old(self).raw@, old(self).index as int, 4) ==> r == Ok::<i32, NbtError>(
                u32_of(old(self).raw@.subrange(old(self).index as int, old(self).index as int + 4)) as i32,
            ) && final(self).index == old(self).index + 4,
            !fits(old(self).raw@, old(self).index as int, 4) ==> r == Err::<i32, NbtError>(
                NbtError::TruncatedInput,
            ) && final(self).index == old(self).index,
    {
        let mut index = self.index;
        let r = read_i32(self.raw, &mut index);
        self.index = index;
        r
    }

    pub fn read_u64(&mut self) -> (r: Result<u64, NbtError>)
        ensures
            final(self).raw == old(self).raw,
            fits(old(self).raw@, old(self).index as int, 8) ==> r == Ok::<u64, NbtError>(
                u64_of(old(self).raw@.subrange(old(self).index as int, old(self).index as int + 8)),
            ) && final(self).index == old(self).index + 8,
            !fits(old(self).raw@, old(self).index as int, 8) ==> r == Err::<u64, NbtError>(
                NbtError::TruncatedInput,
            ) && final(self).index == old(self).index,
    {
        let mut index = self.index;
        let r = read_u64(self.raw, &mut index);
        self.index = index;
        r
    }

    pub fn read_i64(&mut self) -> (r: Result<i64, NbtError>)
        ensures
            final(self).raw == old(self).raw,
            fits(old(self).raw@, old(self).index as int, 8) ==> r == Ok::<i64, NbtError>(
                u64_of(old(self).raw@.subrange(old(self).index as int, old(self).index as int + 8)) as i64,
            ) && final(self).index == old(self).index + 8,
            !fits(old(self).raw@, old(self).index as int, 8) ==> r == Err::<i64, NbtError>(
                NbtError::TruncatedInput,
            ) && final(self).index == old(self).index,
    {
        let mut index = self.index;
        let r = read_i64(self.raw, &mut index);
        self.index = index;
        r
    }

    /// A type byte.
    pub fn read_type(&mut self) -> (r: Result<u8, NbtError>)
        ensures
            final(self).raw == old(self).raw,
            fits(old(self).raw@, old(self).index as int, 1) ==> r == Ok::<u8, NbtError>(
                old(self).raw@[old(self).index as int],
            ) && final(self).index == old(self).index + 1,
            !fits(old(self).raw@, old(self).index as int, 1) ==> r == Err::<u8, NbtError>(
                NbtError::TruncatedInput,
            ) && final(self).index == old(self).index,
    {
        let mut index = self.index;
        let r = read_type(self.raw, &mut index);
        self.index = index;
        r
    }

    /// A string: a 16-bit byte count, then that many bytes of UTF-8.
    pub fn read_string(&mut self) -> (r: Result<String, NbtError>)
        ensures
            final(self).raw == old(self).raw,
            match spec_read_string(old(self).raw@, old(self).index as int) {
                Ok((s, p)) => r is Ok && r->Ok_0@ == s && final(self).index == p,
                Err(e) => r == Err::<String, NbtError>(e),
            },
    {
        let mut index = self.index;
        let r = read_string(self.raw, &mut index);
        self.index = index;
        r
    }

    /// A name; the empty string stands for no name.
    pub fn read_name(&mut self) -> (r: Result<Option<String>, NbtError>)
        ensures
            final(self).raw == old(self).raw,
            match spec_read_name(old(self).raw@, old(self).index as int) {
                Ok((n, p)) => r is Ok && name_model(r->Ok_0) == n && final(self).index == p,
                Err(e) => r == Err::<Option<String>, NbtError>(e),
            },
    {
        let mut index = self.index;
        let r = read_name(self.raw, &mut index);
        self.index = index;
        r
    }

    pub fn read_byte_array(&mut self) -> (r: Result<Vec<i8>, NbtError>)
        ensures
            final(self).raw == old(self).raw,
            match spec_read_byte_array(old(self).raw@, old(self).index as int) {
                Ok((v, p)) => r is Ok && r->Ok_0@ == v && final(self).index == p,
                Err(e) => r == Err::<Vec<i8>, NbtError>(e),
            },
    {
        let mut index = self.index;
        let r = read_byte_array(self.raw, &mut index);
        self.index = index;
        r
    }

    pub fn read_int_array(&mut self) -> (r: Result<Vec<i32>, NbtError>)
        ensures
            final(self).raw == old(self).raw,
            match spec_read_int_array(old(self).raw@, old(self).index as int) {
                Ok((v, p)) => r is Ok && r->Ok_0@ == v && final(self).index == p,
                Err(e) => r == Err::<Vec<i32>, NbtError>(e),
            },
    {
        let mut index = self.index;
        let r = read_int_array(self.raw, &mut index);
        self.index = index;
        r
    }

    pub fn read_long_array(&mut self) -> (r: Result<Vec<i64>, NbtError>)
        ensures
            final(self).raw == old(self).raw,
            match spec_read_long_array(old(self).raw@, old(self).index as int) {
                Ok((v, p)) => r is Ok && r->Ok_0@ == v && final(self).index == p,
                Err(e) => r == Err::<Vec<i64>, NbtError>(e),
            },
    {
        let mut index = self.index;
        let r = read_long_array(self.raw, &mut index);
        self.index = index;
        r
    }
}

} // verus!
