//! Parsing the tag format. The `spec_*` functions state the grammar exactly;
//! each executable parser returns what its spec function gives.
use vstd::prelude::*;
use crate::bytes::{u16_of, u32_of, u64_of};
use crate::readers::{
    count_at, fits, read_byte_array, read_i16, read_i32, read_i64, read_i8, read_int_array,
    read_long_array, read_name, read_string, read_type, read_u32, read_u64, spec_read_byte_array,
    spec_read_int_array, spec_read_long_array, spec_read_name, spec_read_string, NbtError,
};
use crate::tag::{Tag, TagModel};

verus! {

broadcast use vstd::std_specs::vec::group_vec_axioms, vstd::seq::group_seq_axioms;

/// Puts `acc` in front of the sequence that a successful parse yields.
pub open spec fn prepend<T>(acc: Seq<T>, r: Result<(Seq<T>, int), NbtError>) -> Result<
    (Seq<T>, int),
    NbtError,
> {
    match r {
        Ok((s, q)) => Ok((acc + s, q)),
        Err(e) => Err(e),
    }
}

/// The models of a sequence of tags.
pub open spec fn models(v: Seq<Tag>) -> Seq<TagModel> {
    v.map_values(|t: Tag| t@)
}

/// A complete tag at `pos`: its type byte, then the rest as `spec_parse_with_type` reads it.
pub open spec fn spec_parse_tag(b: Seq<u8>, pos: int) -> Result<(TagModel, int), NbtError>
    decreases b.len() - pos, 0int, 0int,
{
    if !fits(b, pos, 1) {
        Err(NbtError::TruncatedInput)
    } else {
        spec_parse_with_type(b, pos + 1, b[pos], false)
    }
}

/// A tag of a known type at `pos`: an end marker is nothing more; another tag
/// has its name (unless `skip_name`), then its payload.
pub open spec fn spec_parse_with_type(b: Seq<u8>, pos: int, tag_type: u8, skip_name: bool) -> Result<
    (TagModel, int),
    NbtError,
>
    decreases b.len() - pos, 3int, 0int,
{
    if pos < 0 || pos > b.len() {
        Err(NbtError::TruncatedInput)
    } else if tag_type == 0 {
        Ok((TagModel::End, pos))
    } else {
        let nm = if skip_name {
            Ok((None::<Seq<char>>, pos))
        } else {
            spec_read_name(b, pos)
        };
        match nm {
            Err(e) => Err(e),
            Ok((name, p)) => if p < pos || p > b.len() {
                Err(NbtError::TruncatedInput)
            } else {
                spec_parse_payload(b, p, tag_type, name)
            },
        }
    }
}

/// The payload of a tag of type `tag_type` named `name`, at `pos`.
pub open spec fn spec_parse_payload(
    b: Seq<u8>,
    pos: int,
    tag_type: u8,
    name: Option<Seq<char>>,
) -> Result<(TagModel, int), NbtError>
    decreases b.len() - pos, 2int, 0int,
{
    if pos < 0 || pos > b.len() {
        Err(NbtError::TruncatedInput)
    } else if tag_type == 1 {
        if fits(b, pos, 1) {
            Ok((TagModel::Byte { name, value: b[pos] as i8 }, pos + 1))
        } else {
            Err(NbtError::TruncatedInput)
        }
    } else if tag_type == 2 {
        if fits(b, pos, 2) {
            Ok((TagModel::Short { name, value: u16_of(b.subrange(pos, pos + 2)) as i16 }, pos + 2))
        } else {
            Err(NbtError::TruncatedInput)
        }
    } else if tag_type == 3 {
        if fits(b, pos, 4) {
            Ok((TagModel::Int { name, value: u32_of(b.subrange(pos, pos + 4)) as i32 }, pos + 4))
        } else {
            Err(NbtError::TruncatedInput)
        }
    } else if tag_type == 4 {
        if fits(b, pos, 8) {
            Ok((TagModel::Long { name, value: u64_of(b.subrange(pos, pos + 8)) as i64 }, pos + 8))
        } else {
            Err(NbtError::TruncatedInput)
        }
    } else if tag_type == 5 {
        if fits(b, pos, 4) {
            Ok((TagModel::Float { name, value: u32_of(b.subrange(pos, pos + 4)) }, pos + 4))
        } else {
            Err(NbtError::TruncatedInput)
        }
    } else if tag_type == 6 {
        if fits(b, pos, 8) {
            Ok((TagModel::Double { name, value: u64_of(b.subrange(pos, pos + 8)) }, pos + 8))
        } else {
            Err(NbtError::TruncatedInput)
        }
    } else if tag_type == 7 {
        match spec_read_byte_array(b, pos) {
            Ok((v, q)) => Ok((TagModel::ByteArray { name, value: v }, q)),
            Err(e) => Err(e),
        }
    } else if tag_type == 8 {
        match spec_read_string(b, pos) {
            Ok((v, q)) => Ok((TagModel::Str { name, value: v }, q)),
            Err(e) => Err(e),
        }
    } else if tag_type == 9 {
        match spec_parse_list(b, pos) {
            Ok(((t, v), q)) => Ok((TagModel::List { name, value: v, tag_type: t }, q)),
            Err(e) => Err(e),
        }
    } else if tag_type == 10 {
        match spec_parse_compound(b, pos) {
            Ok((v, q)) => Ok((TagModel::Compound { name, value: v }, q)),
            Err(e) => Err(e),
        }
    } else if tag_type == 11 {
        match spec_read_int_array(b, pos) {
            Ok((v, q)) => Ok((TagModel::IntArray { name, value: v }, q)),
            Err(e) => Err(e),
        }
    } else if tag_type == 12 {
        match spec_read_long_array(b, pos) {
            Ok((v, q)) => Ok((TagModel::LongArray { name, value: v }, q)),
            Err(e) => Err(e),
        }
    } else {
        Err(NbtError::UnsupportedTagType(tag_type))
    }
}

/// A list payload at `pos`: the element type byte, a 32-bit signed count, then
/// that many elements without type byte or name; a count that is not
/// positive stands for no elements.
pub open spec fn spec_parse_list(b: Seq<u8>, pos: int) -> Result<((u8, Seq<TagModel>), int), NbtError>
    decreases b.len() - pos, 1int, 0int,
{
    if !fits(b, pos, 5) {
        Err(NbtError::TruncatedInput)
    } else if count_at(b, pos + 1) <= 0 {
        Ok(((b[pos], seq![]), pos + 5))
    } else {
        match spec_list_items(b, pos + 5, b[pos], count_at(b, pos + 1)) {
            Ok((v, q)) => Ok(((b[pos], v), q)),
            Err(e) => Err(e),
        }
    }
}

/// `n` list elements of type `tag_type` at `pos`.
pub open spec fn spec_list_items(b: Seq<u8>, pos: int, tag_type: u8, n: int) -> Result<
    (Seq<TagModel>, int),
    NbtError,
>
    decreases b.len() - pos, 4int, n,
{
    if n <= 0 {
        Ok((seq![], pos))
    } else if pos < 0 || pos > b.len() {
        Err(NbtError::TruncatedInput)
    } else {
        match spec_parse_with_type(b, pos, tag_type, true) {
            Err(e) => Err(e),
            Ok((m, q)) => if q < pos || q > b.len() {
                Err(NbtError::TruncatedInput)
            } else {
                prepend(seq![m], spec_list_items(b, q, tag_type, n - 1))
            },
        }
    }
}

/// A compound payload at `pos`: complete tags up to the first end marker.
pub open spec fn spec_parse_compound(b: Seq<u8>, pos: int) -> Result<(Seq<TagModel>, int), NbtError>
    decreases b.len() - pos, 1int, 0int,
{
    if pos < 0 || pos > b.len() {
        Err(NbtError::TruncatedInput)
    } else {
        match spec_parse_tag(b, pos) {
            Err(e) => Err(e),
            Ok((m, q)) => if m is End {
                Ok((seq![], q))
            } else if q <= pos || q > b.len() {
                Err(NbtError::TruncatedInput)
            } else {
                prepend(seq![m], spec_parse_compound(b, q))
            },
        }
    }
}

proof fn lemma_prepend_push(values: Seq<Tag>, t: Tag, r: Result<(Seq<TagModel>, int), NbtError>)
    ensures
        prepend(models(values.push(t)), r) == prepend(models(values), prepend(seq![t@], r)),
{
    assert(models(values.push(t)) =~= models(values) + seq![t@]);
    match r {
        Ok((s, q)) => {
            assert(models(values) + seq![t@] + s =~= models(values) + (seq![t@] + s));
        },
        Err(_) => {},
    }
}

/// Parses one complete tag at `index`.
pub fn parse_tag(raw: &[u8], index: &mut usize) -> (r: Result<Tag, NbtError>)
    ensures
        match spec_parse_tag(raw@, *old(index) as int) {
            Ok((m, q)) => r is Ok && r->Ok_0@ == m && *final(index) == q,
            Err(e) => r == Err::<Tag, NbtError>(e),
        },
        *old(index) <= *final(index),
        *old(index) <= raw@.len() ==> *final(index) <= raw@.len(),
        r is Ok ==> *old(index) < *final(index),
    decreases raw@.len() - *old(index), 0int,
{
    if *index > raw.len() {
        return Err(NbtError::TruncatedInput);
    }
    let tag_type = read_type(raw, index)?;
    parse_with_type(raw, index, tag_type, false)
}

/// Parses a tag whose type is already known; list elements skip their name.
pub fn parse_with_type(raw: &[u8], index: &mut usize, tag_type: u8, skip_name: bool) -> (r: Result<
    Tag,
    NbtError,
>)
    ensures
        match spec_parse_with_type(raw@, *old(index) as int, tag_type, skip_name) {
            Ok((m, q)) => r is Ok && r->Ok_0@ == m && *final(index) == q,
            Err(e) => r == Err::<Tag, NbtError>(e),
        },
        *old(index) <= *final(index),
        *old(index) <= raw@.len() ==> *final(index) <= raw@.len(),
    decreases raw@.len() - *old(index), 3int,
{
    if *index > raw.len() {
        return Err(NbtError::TruncatedInput);
    }
    if tag_type == 0 {
        return Ok(Tag::End);
    }
    let name = if skip_name {
        None
    } else {
        read_name(raw, index)?
    };
    assert(spec_parse_with_type(raw@, *old(index) as int, tag_type, skip_name)
        == spec_parse_payload(raw@, *index as int, tag_type, crate::tag::name_model(name)));
    parse_payload(raw, index, tag_type, name)
}

/// Parses the payload of a tag of type `tag_type` that carries `name`.
#[verifier::rlimit(40)]
fn parse_payload(raw: &[u8], index: &mut usize, tag_type: u8, name: Option<String>) -> (r: Result<
    Tag,
    NbtError,
>)
    requires
        *old(index) <= raw@.len(),
    ensures
        match spec_parse_payload(
            raw@,
            *old(index) as int,
            tag_type,
            crate::tag::name_model(name),
        ) {
            Ok((m, q)) => r is Ok && r->Ok_0@ == m && *final(index) == q,
            Err(e) => r == Err::<Tag, NbtError>(e),
        },
        *old(index) <= *final(index) <= raw@.len(),
    decreases raw@.len() - *old(index), 2int,
{
    match tag_type {
        1 => {
            let value = read_i8(raw, index)?;
            Ok(Tag::Byte { name, value })
        },
        2 => {
            let value = read_i16(raw, index)?;
            Ok(Tag::Short { name, value })
        },
        3 => {
            let value = read_i32(raw, index)?;
            Ok(Tag::Int { name, value })
        },
        4 => {
            let value = read_i64(raw, index)?;
            Ok(Tag::Long { name, value })
        },
        5 => {
            let value = read_u32(raw, index)?;
            Ok(Tag::Float { name, value })
        },
        6 => {
            let value = read_u64(raw, index)?;
            Ok(Tag::Double { name, value })
        },
        7 => {
            let value = read_byte_array(raw, index)?;
            Ok(Tag::ByteArray { name, value })
        },
        8 => {
            let value = read_string(raw, index)?;
            Ok(Tag::String { name, value })
        },
        9 => {
            let (list_type, value) = parse_list_tag(raw, index)?;
            let t = Tag::List { name, value, tag_type: list_type };
            assert(crate::tag::children_of(t@) =~= models(value@));
            Ok(t)
        },
        10 => {
            let value = parse_compound_tag(raw, index)?;
            let t = Tag::Compound { name, value };
            assert(crate::tag::children_of(t@) =~= models(value@));
            Ok(t)
        },
        11 => {
            let value = read_int_array(raw, index)?;
            Ok(Tag::IntArray { name, value })
        },
        12 => {
            let value = read_long_array(raw, index)?;
            Ok(Tag::LongArray { name, value })
        },
        _ => Err(NbtError::UnsupportedTagType(tag_type)),
    }
}

/// Parses a list payload: element type, count, then the elements.
pub fn parse_list_tag(raw: &[u8], index: &mut usize) -> (r: Result<(u8, Vec<Tag>), NbtError>)
    ensures
        match spec_parse_list(raw@, *old(index) as int) {
            Ok(((t, v), q)) => r is Ok && r->Ok_0.0 == t && models(r->Ok_0.1@) == v && *final(index)
                == q,
            Err(e) => r == Err::<(u8, Vec<Tag>), NbtError>(e),
        },
        *old(index) <= *final(index),
        *old(index) <= raw@.len() ==> *final(index) <= raw@.len(),
    decreases raw@.len() - *old(index), 1int,
{
    if *index > raw.len() {
        return Err(NbtError::TruncatedInput);
    }
    let ghost pos = *index as int;
    let tag_type = read_type(raw, index)?;
    let list_length = read_i32(raw, index)?;
    let mut values: Vec<Tag> = Vec::new();
    assert(list_length as int == count_at(raw@, pos + 1));
    if list_length <= 0 {
        assert(models(values@) =~= seq![]);
        return Ok((tag_type, values));
    }
    let mut i: i32 = 0;
    while i < list_length
        invariant
            pos == *old(index),
            pos + 5 <= *index <= raw@.len(),
            0 <= i <= list_length,
            list_length as int == count_at(raw@, pos + 1),
            tag_type == raw@[pos],
            spec_parse_list(raw@, pos) == (match spec_list_items(
                raw@,
                pos + 5,
                tag_type,
                list_length as int,
            ) {
                Ok((v, q)) => Ok(((tag_type, v), q)),
                Err(e) => Err(e),
            }),
            spec_list_items(raw@, pos + 5, tag_type, list_length as int) == prepend(
                models(values@),
                spec_list_items(raw@, *index as int, tag_type, (list_length - i) as int),
            ),
        decreases list_length - i,
    {
        let ghost before = *index as int;
        let ghost vals = values@;
        let next = match parse_with_type(raw, index, tag_type, true) {
            Ok(t) => t,
            Err(e) => {
                assert(spec_list_items(raw@, before, tag_type, (list_length - i) as int) == Err::<
                    (Seq<TagModel>, int),
                    NbtError,
                >(e));
                return Err(e);
            },
        };
        assert(spec_list_items(raw@, before, tag_type, (list_length - i) as int) == prepend(
            seq![next@],
            spec_list_items(raw@, *index as int, tag_type, (list_length - i - 1) as int),
        ));
        proof {
            lemma_prepend_push(
                vals,
                next,
                spec_list_items(raw@, *index as int, tag_type, (list_length - i - 1) as int),
            );
        }
        values.push(next);
        i = i + 1;
    }
    assert(models(values@) + seq![] =~= models(values@));
    Ok((tag_type, values))
}

/// Parses a compound payload: complete tags up to the end marker, which is consumed.
pub fn parse_compound_tag(raw: &[u8], index: &mut usize) -> (r: Result<Vec<Tag>, NbtError>)
    ensures
        match spec_parse_compound(raw@, *old(index) as int) {
            Ok((v, q)) => r is Ok && models(r->Ok_0@) == v && *final(index) == q,
            Err(e) => r == Err::<Vec<Tag>, NbtError>(e),
        },
        *old(index) <= *final(index),
        *old(index) <= raw@.len() ==> *final(index) <= raw@.len(),
    decreases raw@.len() - *old(index), 1int,
{
    if *index > raw.len() {
        return Err(NbtError::TruncatedInput);
    }
    let ghost pos = *index as int;
    let mut values: Vec<Tag> = Vec::new();
    assert(models(values@) =~= seq![]);
    loop
        invariant
            pos == *old(index),
            pos <= *index <= raw@.len(),
            spec_parse_compound(raw@, pos) == prepend(
                models(values@),
                spec_parse_compound(raw@, *index as int),
            ),
        decreases raw@.len() - *index,
    {
        let ghost vals = values@;
        let ghost before = *index as int;
        let next = match parse_tag(raw, index) {
            Ok(t) => t,
            Err(e) => {
                assert(spec_parse_compound(raw@, before) == Err::<(Seq<TagModel>, int), NbtError>(
                    e,
                ));
                return Err(e);
            },
        };
        if let Tag::End = next {
            assert(models(values@) + seq![] =~= models(values@));
            return Ok(values);
        }
        proof {
            lemma_prepend_push(vals, next, spec_parse_compound(raw@, *index as int));
        }
        values.push(next);
    }
}

} // verus!
