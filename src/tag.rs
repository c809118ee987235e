//! The recursive tag value, its mathematical model and its byte encoding.
use vstd::prelude::*;
use vstd::utf8::encode_utf8;
use crate::bytes::{be16, be32, be64};
use crate::writers::{
    push_all, size_to_i32_bytes, u16_to_be, u32_to_be, u64_to_be, write_array_i32, write_array_i64,
    write_array_i8, write_string,
};

verus! {

broadcast use vstd::std_specs::vec::group_vec_axioms, vstd::seq::group_seq_axioms;

/// One value of the named binary tag format. Floating-point payloads are kept
/// as their IEEE-754 bit patterns, exactly as they are stored.
#[derive(Debug, PartialEq)]
pub enum Tag {
    End,
    Byte { name: Option<String>, value: i8 },
    Short { name: Option<String>, value: i16 },
    Int { name: Option<String>, value: i32 },
    Long { name: Option<String>, value: i64 },
    Float { name: Option<String>, value: u32 },
    Double { name: Option<String>, value: u64 },
    ByteArray { name: Option<String>, value: Vec<i8> },
    String { name: Option<String>, value: String },
    List { name: Option<String>, value: Vec<Tag>, tag_type: u8 },
    Compound { name: Option<String>, value: Vec<Tag> },
    IntArray { name: Option<String>, value: Vec<i32> },
    LongArray { name: Option<String>, value: Vec<i64> },
}

/// The mathematical model of a [`Tag`]: names and strings are character
/// sequences, arrays and children are sequences.
pub enum TagModel {
    End,
    Byte { name: Option<Seq<char>>, value: i8 },
    Short { name: Option<Seq<char>>, value: i16 },
    Int { name: Option<Seq<char>>, value: i32 },
    Long { name: Option<Seq<char>>, value: i64 },
    Float { name: Option<Seq<char>>, value: u32 },
    Double { name: Option<Seq<char>>, value: u64 },
    ByteArray { name: Option<Seq<char>>, value: Seq<i8> },
    Str { name: Option<Seq<char>>, value: Seq<char> },
    List { name: Option<Seq<char>>, value: Seq<TagModel>, tag_type: u8 },
    Compound { name: Option<Seq<char>>, value: Seq<TagModel> },
    IntArray { name: Option<Seq<char>>, value: Seq<i32> },
    LongArray { name: Option<Seq<char>>, value: Seq<i64> },
}

pub open spec fn name_model(n: Option<String>) -> Option<Seq<char>> {
    match n {
        Some(s) => Some(s@),
        None => None,
    }
}

impl View for Tag {
    type V = TagModel;

    open spec fn view(&self) -> TagModel {
        self.model()
    }
}

impl Tag {
    pub open spec fn model(&self) -> TagModel
        decreases self,
    {
        match self {
            Tag::End => TagModel::End,
            Tag::Byte { name, value } => TagModel::Byte { name: name_model(*name), value: *value },
            Tag::Short { name, value } => TagModel::Short { name: name_model(*name), value: *value },
            Tag::Int { name, value } => TagModel::Int { name: name_model(*name), value: *value },
            Tag::Long { name, value } => TagModel::Long { name: name_model(*name), value: *value },
            Tag::Float { name, value } => TagModel::Float { name: name_model(*name), value: *value },
            Tag::Double { name, value } => TagModel::Double {
                name: name_model(*name),
                value: *value,
            },
            Tag::ByteArray { name, value } => TagModel::ByteArray {
                name: name_model(*name),
                value: value@,
            },
            Tag::String { name, value } => TagModel::Str { name: name_model(*name), value: value@ },
            Tag::List { name, value, tag_type } => TagModel::List {
                name: name_model(*name),
                value: Seq::new(
                    value.len() as nat,
                    |i: int|
                        if 0 <= i < value.len() {
                            value[i].model()
                        } else {
                            TagModel::End
                        },
                ),
                tag_type: *tag_type,
            },
            Tag::Compound { name, value } => TagModel::Compound {
                name: name_model(*name),
                value: Seq::new(
                    value.len() as nat,
                    |i: int|
                        if 0 <= i < value.len() {
                            value[i].model()
                        } else {
                            TagModel::End
                        },
                ),
            },
            Tag::IntArray { name, value } => TagModel::IntArray {
                name: name_model(*name),
                value: value@,
            },
            Tag::LongArray { name, value } => TagModel::LongArray {
                name: name_model(*name),
                value: value@,
            },
        }
    }
}

/// The type code of a tag.
pub open spec fn type_of(m: TagModel) -> u8 {
    match m {
        TagModel::End => 0,
        TagModel::Byte { .. } => 1,
        TagModel::Short { .. } => 2,
        TagModel::Int { .. } => 3,
        TagModel::Long { .. } => 4,
        TagModel::Float { .. } => 5,
        TagModel::Double { .. } => 6,
        TagModel::ByteArray { .. } => 7,
        TagModel::Str { .. } => 8,
        TagModel::List { .. } => 9,
        TagModel::Compound { .. } => 10,
        TagModel::IntArray { .. } => 11,
        TagModel::LongArray { .. } => 12,
    }
}

/// The name of a tag; an end marker has none.
pub open spec fn name_of(m: TagModel) -> Option<Seq<char>> {
    match m {
        TagModel::End => None,
        TagModel::Byte { name, .. } => name,
        TagModel::Short { name, .. } => name,
        TagModel::Int { name, .. } => name,
        TagModel::Long { name, .. } => name,
        TagModel::Float { name, .. } => name,
        TagModel::Double { name, .. } => name,
        TagModel::ByteArray { name, .. } => name,
        TagModel::Str { name, .. } => name,
        TagModel::List { name, .. } => name,
        TagModel::Compound { name, .. } => name,
        TagModel::IntArray { name, .. } => name,
        TagModel::LongArray { name, .. } => name,
    }
}

/// A string as stored: a 16-bit byte count, then its UTF-8 bytes.
pub open spec fn string_bytes(s: Seq<char>) -> Seq<u8> {
    be16(encode_utf8(s).len() as u16) + encode_utf8(s)
}

/// A name as stored; an absent name is stored as the empty string.
pub open spec fn name_bytes(n: Option<Seq<char>>) -> Seq<u8> {
    match n {
        Some(s) => string_bytes(s),
        None => seq![0u8, 0u8],
    }
}

/// The count prefix of an array or list: a 32-bit signed integer.
pub open spec fn count_bytes(n: nat) -> Seq<u8> {
    be32((n as i32) as u32)
}

pub open spec fn i8_bytes(s: Seq<i8>) -> Seq<u8>
    decreases s.len(),
{
    if s.len() == 0 {
        seq![]
    } else {
        i8_bytes(s.drop_last()) + seq![s.last() as u8]
    }
}

pub open spec fn i32_bytes(s: Seq<i32>) -> Seq<u8>
    decreases s.len(),
{
    if s.len() == 0 {
        seq![]
    } else {
        i32_bytes(s.drop_last()) + be32(s.last() as u32)
    }
}

pub open spec fn i64_bytes(s: Seq<i64>) -> Seq<u8>
    decreases s.len(),
{
    if s.len() == 0 {
        seq![]
    } else {
        i64_bytes(s.drop_last()) + be64(s.last() as u64)
    }
}

/// The encoding of a tag. Inside a list an element carries neither its type
/// byte nor its name (`skip_type`, `skip_name`); an end marker never has a name.
pub open spec fn tag_bytes(m: TagModel, skip_name: bool, skip_type: bool) -> Seq<u8>
    decreases m, 1int, 0int,
{
    (if skip_type {
        Seq::<u8>::empty()
    } else {
        seq![type_of(m)]
    }) + (if !skip_name && type_of(m) != 0 {
        name_bytes(name_of(m))
    } else {
        Seq::<u8>::empty()
    }) + payload_bytes(m)
}

/// The payload of a tag, after its type byte and name.
pub open spec fn payload_bytes(m: TagModel) -> Seq<u8>
    decreases m, 0int, 1int,
{
    match m {
        TagModel::End => seq![],
        TagModel::Byte { value, .. } => seq![value as u8],
        TagModel::Short { value, .. } => be16(value as u16),
        TagModel::Int { value, .. } => be32(value as u32),
        TagModel::Long { value, .. } => be64(value as u64),
        TagModel::Float { value, .. } => be32(value),
        TagModel::Double { value, .. } => be64(value),
        TagModel::ByteArray { value, .. } => count_bytes(value.len()) + i8_bytes(value),
        TagModel::Str { value, .. } => string_bytes(value),
        TagModel::List { value, tag_type, .. } => seq![tag_type] + count_bytes(value.len())
            + elements_bytes(m, value.len() as int),
        TagModel::Compound { value, .. } => children_bytes(m, value.len() as int) + seq![0u8],
        TagModel::IntArray { value, .. } => count_bytes(value.len()) + i32_bytes(value),
        TagModel::LongArray { value, .. } => count_bytes(value.len()) + i64_bytes(value),
    }
}

/// The children of a list or compound tag.
pub open spec fn children_of(m: TagModel) -> Seq<TagModel> {
    match m {
        TagModel::List { value, .. } => value,
        TagModel::Compound { value, .. } => value,
        _ => seq![],
    }
}

/// The encoding of the first `n` elements of a list, each without type byte or name.
pub open spec fn elements_bytes(m: TagModel, n: int) -> Seq<u8>
    decreases m, 0int, 0int, n,
{
    if n <= 0 || n > children_of(m).len() {
        seq![]
    } else {
        elements_bytes(m, n - 1) + tag_bytes(children_of(m)[n - 1], true, true)
    }
}

/// The encoding of the first `n` children of a compound, each complete.
pub open spec fn children_bytes(m: TagModel, n: int) -> Seq<u8>
    decreases m, 0int, 0int, n,
{
    if n <= 0 || n > children_of(m).len() {
        seq![]
    } else {
        children_bytes(m, n - 1) + tag_bytes(children_of(m)[n - 1], false, false)
    }
}


fn clone_name(name: &Option<String>) -> (r: Option<String>)
    ensures
        name_model(r) == name_model(*name),
{
    match name {
        Some(s) => Some(s.clone()),
        None => None,
    }
}

impl Tag {
    pub fn get_tag_type(&self) -> (r: u8)
        ensures
            r == type_of(self@),
    {
        match self {
            Tag::End => 0,
            Tag::Byte { .. } => 1,
            Tag::Short { .. } => 2,
            Tag::Int { .. } => 3,
            Tag::Long { .. } => 4,
            Tag::Float { .. } => 5,
            Tag::Double { .. } => 6,
            Tag::ByteArray { .. } => 7,
            Tag::String { .. } => 8,
            Tag::List { .. } => 9,
            Tag::Compound { .. } => 10,
            Tag::IntArray { .. } => 11,
            Tag::LongArray { .. } => 12,
        }
    }

    pub fn get_name(&self) -> (r: Option<String>)
        ensures
            name_model(r) == name_of(self@),
    {
        match self {
            Tag::End => None,
            Tag::Byte { name, .. } => clone_name(name),
            Tag::Short { name, .. } => clone_name(name),
            Tag::Int { name, .. } => clone_name(name),
            Tag::Long { name, .. } => clone_name(name),
            Tag::Float { name, .. } => clone_name(name),
            Tag::Double { name, .. } => clone_name(name),
            Tag::ByteArray { name, .. } => clone_name(name),
            Tag::String { name, .. } => clone_name(name),
            Tag::List { name, .. } => clone_name(name),
            Tag::Compound { name, .. } => clone_name(name),
            Tag::IntArray { name, .. } => clone_name(name),
            Tag::LongArray { name, .. } => clone_name(name),
        }
    }

    fn serialize_name(&self) -> (r: Vec<u8>)
        ensures
            r@ == name_bytes(name_of(self@)),
    {
        match self.get_name() {
            None => {
                let r = vec![0u8, 0u8];
                assert(r@ =~= seq![0u8, 0u8]);
                r
            },
            Some(name) => write_string(name),
        }
    }

    /// The complete encoding of this tag: type byte, name, payload.
    pub fn to_bytes(&self) -> (r: Vec<u8>)
        ensures
            r@ == tag_bytes(self@, false, false),
    {
        self.to_bytes_tag(false, false)
    }

    pub fn to_bytes_tag(&self, skip_name: bool, skip_tag_type: bool) -> (r: Vec<u8>)
        ensures
            r@ == tag_bytes(self@, skip_name, skip_tag_type),
        decreases self,
    {
        let tag_type = self.get_tag_type();
        let mut base: Vec<u8> = Vec::new();
        if !skip_tag_type {
            base.push(tag_type);
        }
        if !skip_name && tag_type != 0 {
            let mut name = self.serialize_name();
            base.append(&mut name);
        }
        let ghost head = base@;
        let mut payload: Vec<u8> = Vec::new();
        match self {
            Tag::End => {},
            Tag::Byte { value, .. } => {
                payload.push(#[verifier::truncate] (*value as u8));
            },
            Tag::Short { value, .. } => {
                push_all(&mut payload, &u16_to_be(*value as u16));
            },
            Tag::Int { value, .. } => {
                push_all(&mut payload, &u32_to_be(*value as u32));
            },
            Tag::Long { value, .. } => {
                push_all(&mut payload, &u64_to_be(*value as u64));
            },
            Tag::Float { value, .. } => {
                push_all(&mut payload, &u32_to_be(*value));
            },
            Tag::Double { value, .. } => {
                push_all(&mut payload, &u64_to_be(*value));
            },
            Tag::ByteArray { value, .. } => {
                payload = write_array_i8(value.as_slice());
            },
            Tag::String { value, .. } => {
                payload = write_string(value.clone());
            },
            Tag::List { name, value, tag_type } => {
                let ghost m = self@;
                payload.push(*tag_type);
                push_all(&mut payload, &size_to_i32_bytes(value.len()));
                let mut i: usize = 0;
                while i < value.len()
                    invariant
                        0 <= i <= value@.len(),
                        m == self@,
                        *self == (Tag::List { name: *name, value: *value, tag_type: *tag_type }),
                        children_of(m).len() == value@.len(),
                        payload@ == seq![*tag_type] + count_bytes(value@.len()) + elements_bytes(
                            m,
                            i as int,
                        ),
                    decreases value@.len() - i,
                {
                    assert(decreases_to!(self => value[i as int]));
                    let mut next = value[i].to_bytes_tag(true, true);
                    assert(children_of(m)[i as int] == value[i as int]@);
                    payload.append(&mut next);
                    i = i + 1;
                    assert(payload@ =~= seq![*tag_type] + count_bytes(value@.len()) + elements_bytes(
                        m,
                        i as int,
                    ));
                }
            },
            Tag::Compound { name, value } => {
                let ghost m = self@;
                let mut i: usize = 0;
                while i < value.len()
                    invariant
                        0 <= i <= value@.len(),
                        m == self@,
                        *self == (Tag::Compound { name: *name, value: *value }),
                        children_of(m).len() == value@.len(),
                        payload@ == children_bytes(m, i as int),
                    decreases value@.len() - i,
                {
                    assert(decreases_to!(self => value[i as int]));
                    let mut next = value[i].to_bytes_tag(false, false);
                    assert(children_of(m)[i as int] == value[i as int]@);
                    payload.append(&mut next);
                    i = i + 1;
                    assert(payload@ =~= children_bytes(m, i as int));
                }
                payload.push(0u8);
            },
            Tag::IntArray { value, .. } => {
                payload = write_array_i32(value.as_slice());
            },
            Tag::LongArray { value, .. } => {
                payload = write_array_i64(value.as_slice());
            },
        }
        assert(payload@ =~= payload_bytes(self@));
        base.append(&mut payload);
        assert(base@ =~= tag_bytes(self@, skip_name, skip_tag_type));
        base
    }

    pub fn get_long(&self) -> (r: Option<&i64>)
        ensures
            match self@ {
                TagModel::Long { value, .. } => r == Some(&value),
                _ => r is None,
            },
    {
        match self {
            Tag::Long { value, .. } => Some(value),
            _ => None,
        }
    }

    pub fn get_int(&self) -> (r: Option<&i32>)
        ensures
            match self@ {
                TagModel::Int { value, .. } => r == Some(&value),
                _ => r is None,
            },
    {
        match self {
            Tag::Int { value, .. } => Some(value),
            _ => None,
        }
    }

    pub fn get_string(&self) -> (r: Option<&String>)
        ensures
            match self@ {
                TagModel::Str { value, .. } => r is Some && r->0@ == value,
                _ => r is None,
            },
    {
        match self {
            Tag::String { value, .. } => Some(value),
            _ => None,
        }
    }
}

} // verus!
