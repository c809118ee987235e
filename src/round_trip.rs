//! The round-trip laws of the tag codec: the parser reads back exactly what
//! the serializer writes, for every tag that the parser can produce.
use vstd::prelude::*;
use vstd::utf8::{
    decode_utf8_encode_utf8, encode_utf8, encode_utf8_decode_utf8, encode_utf8_valid_utf8,
};
use crate::bytes::{
    be16, be32, be64, lemma_be16_round_trip, lemma_be32_round_trip, lemma_be64_round_trip, u16_of,
    u32_of, u64_of,
};
use crate::parse::{
    prepend, spec_list_items, spec_parse_compound, spec_parse_list, spec_parse_payload,
    spec_parse_tag, spec_parse_with_type,
};
use crate::readers::{count_at, spec_array_span, spec_read_name, spec_read_string, NbtError};
use crate::tag::{
    children_bytes, children_of, count_bytes, elements_bytes, i32_bytes, i64_bytes, i8_bytes,
    name_bytes, name_of, payload_bytes, string_bytes, tag_bytes, type_of, TagModel,
};

verus! {

broadcast use vstd::seq::group_seq_axioms;

/// `e` stands in `b` at `pos`.
pub open spec fn at(b: Seq<u8>, pos: int, e: Seq<u8>) -> bool {
    0 <= pos && pos + e.len() <= b.len() && b.subrange(pos, pos + e.len()) == e
}

proof fn lemma_at_split(b: Seq<u8>, pos: int, e1: Seq<u8>, e2: Seq<u8>)
    requires
        at(b, pos, e1 + e2),
    ensures
        at(b, pos, e1),
        at(b, pos + e1.len(), e2),
{
    let whole = b.subrange(pos, pos + (e1 + e2).len());
    assert(whole == e1 + e2);
    assert(b.subrange(pos, pos + e1.len()) =~= whole.subrange(0, e1.len() as int));
    assert(whole.subrange(0, e1.len() as int) =~= e1);
    assert(b.subrange(pos + e1.len(), pos + e1.len() + e2.len()) =~= whole.subrange(
        e1.len() as int,
        whole.len() as int,
    ));
    assert(whole.subrange(e1.len() as int, whole.len() as int) =~= e2);
}

proof fn lemma_at_sub(b: Seq<u8>, pos: int, e: Seq<u8>, i: int, j: int)
    requires
        at(b, pos, e),
        0 <= i <= j <= e.len(),
    ensures
        at(b, pos + i, e.subrange(i, j)),
{
    assert(b.subrange(pos + i, pos + j) =~= e.subrange(i, j));
}

/// A name or string value that the format can hold: at most 65535 bytes of UTF-8.
pub open spec fn storable(s: Seq<char>) -> bool {
    encode_utf8(s).len() <= 0xFFFF
}

/// A name that the parser can produce: absent, or a non-empty storable string.
pub open spec fn valid_name(n: Option<Seq<char>>) -> bool {
    match n {
        None => true,
        Some(s) => s.len() > 0 && storable(s),
    }
}

/// The element type recorded by a list.
pub open spec fn list_type(m: TagModel) -> u8 {
    match m {
        TagModel::List { tag_type, .. } => tag_type,
        _ => 0,
    }
}

/// The tags that the parser can produce. A list element has no name and the
/// list's element type; a compound child is not an end marker; counts fit in
/// 32 signed bits and strings in 65535 bytes.
pub open spec fn valid_tag(m: TagModel, in_list: bool) -> bool
    decreases m, 2int, 0int,
{
    &&& if in_list {
        name_of(m) is None
    } else {
        valid_name(name_of(m))
    }
    &&& valid_payload(m)
}

/// The payload of `m` is one that the parser can produce.
pub open spec fn valid_payload(m: TagModel) -> bool
    decreases m, 1int, 0int,
{
    match m {
        TagModel::Str { value, .. } => storable(value),
        TagModel::ByteArray { value, .. } => value.len() <= 0x7fffffff,
        TagModel::IntArray { value, .. } => value.len() <= 0x7fffffff,
        TagModel::LongArray { value, .. } => value.len() <= 0x7fffffff,
        TagModel::List { value, .. } => value.len() <= 0x7fffffff && valid_elements(
            m,
            value.len() as int,
        ),
        TagModel::Compound { value, .. } => valid_children(m, value.len() as int),
        _ => true,
    }
}

/// The first `n` elements of list `m` are valid list elements of its type.
pub open spec fn valid_elements(m: TagModel, n: int) -> bool
    decreases m, 0int, n,
{
    if n <= 0 || n > children_of(m).len() {
        true
    } else {
        valid_elements(m, n - 1) && type_of(children_of(m)[n - 1]) == list_type(m) && valid_tag(
            children_of(m)[n - 1],
            true,
        )
    }
}

/// The first `n` children of compound `m` are valid named tags, none an end marker.
pub open spec fn valid_children(m: TagModel, n: int) -> bool
    decreases m, 0int, n,
{
    if n <= 0 || n > children_of(m).len() {
        true
    } else {
        valid_children(m, n - 1) && type_of(children_of(m)[n - 1]) != 0 && valid_tag(
            children_of(m)[n - 1],
            false,
        )
    }
}

proof fn lemma_casts(a: i8, b: i16, c: i32, d: i64)
    ensures
        (a as u8) as i8 == a,
        (b as u16) as i16 == b,
        (c as u32) as i32 == c,
        (d as u64) as i64 == d,
{
    assert((a as u8) as i8 == a) by (bit_vector);
    assert((b as u16) as i16 == b) by (bit_vector);
    assert((c as u32) as i32 == c) by (bit_vector);
    assert((d as u64) as i64 == d) by (bit_vector);
}

proof fn lemma_read_string(b: Seq<u8>, pos: int, s: Seq<char>)
    requires
        storable(s),
        at(b, pos, string_bytes(s)),
    ensures
        spec_read_string(b, pos) == Ok::<(Seq<char>, int), NbtError>(
            (s, pos + string_bytes(s).len()),
        ),
{
    let e = encode_utf8(s);
    lemma_be16_round_trip(e.len() as u16);
    lemma_at_split(b, pos, be16(e.len() as u16), e);
    encode_utf8_valid_utf8(s);
    encode_utf8_decode_utf8(s);
}

proof fn lemma_read_name(b: Seq<u8>, pos: int, n: Option<Seq<char>>)
    requires
        valid_name(n),
        at(b, pos, name_bytes(n)),
    ensures
        spec_read_name(b, pos) == Ok::<(Option<Seq<char>>, int), NbtError>(
            (n, pos + name_bytes(n).len()),
        ),
{
    match n {
        Some(s) => lemma_read_string(b, pos, s),
        None => {
            assert(encode_utf8(Seq::<char>::empty()) =~= seq![]);
            assert(string_bytes(Seq::<char>::empty()) =~= seq![0u8, 0u8]);
            lemma_read_string(b, pos, Seq::<char>::empty());
        },
    }
}

proof fn lemma_count(b: Seq<u8>, pos: int, n: nat)
    requires
        n <= 0x7fffffff,
        at(b, pos, count_bytes(n)),
    ensures
        count_at(b, pos) == n,
{
    lemma_be32_round_trip((n as i32) as u32);
    lemma_casts(0, 0, n as i32, 0);
}

proof fn lemma_i8_bytes(s: Seq<i8>)
    ensures
        i8_bytes(s).len() == s.len(),
        forall|i: int| 0 <= i < s.len() ==> #[trigger] i8_bytes(s)[i] == s[i] as u8,
    decreases s.len(),
{
    if s.len() > 0 {
        lemma_i8_bytes(s.drop_last());
    }
}

proof fn lemma_i32_bytes(s: Seq<i32>)
    ensures
        i32_bytes(s).len() == 4 * s.len(),
        forall|i: int|
            0 <= i < s.len() ==> #[trigger] i32_bytes(s).subrange(4 * i, 4 * i + 4) == be32(
                s[i] as u32,
            ),
    decreases s.len(),
{
    if s.len() > 0 {
        let t = s.drop_last();
        lemma_i32_bytes(t);
        lemma_be32_round_trip(s.last() as u32);
        assert forall|i: int| 0 <= i < s.len() implies #[trigger] i32_bytes(s).subrange(
            4 * i,
            4 * i + 4,
        ) == be32(s[i] as u32) by {
            if i < t.len() {
                assert(i32_bytes(s).subrange(4 * i, 4 * i + 4) =~= i32_bytes(t).subrange(
                    4 * i,
                    4 * i + 4,
                ));
            } else {
                assert(i32_bytes(s).subrange(4 * i, 4 * i + 4) =~= be32(s.last() as u32));
            }
        }
    }
}

proof fn lemma_i64_bytes(s: Seq<i64>)
    ensures
        i64_bytes(s).len() == 8 * s.len(),
        forall|i: int|
            0 <= i < s.len() ==> #[trigger] i64_bytes(s).subrange(8 * i, 8 * i + 8) == be64(
                s[i] as u64,
            ),
    decreases s.len(),
{
    if s.len() > 0 {
        let t = s.drop_last();
        lemma_i64_bytes(t);
        lemma_be64_round_trip(s.last() as u64);
        assert forall|i: int| 0 <= i < s.len() implies #[trigger] i64_bytes(s).subrange(
            8 * i,
            8 * i + 8,
        ) == be64(s[i] as u64) by {
            if i < t.len() {
                assert(i64_bytes(s).subrange(8 * i, 8 * i + 8) =~= i64_bytes(t).subrange(
                    8 * i,
                    8 * i + 8,
                ));
            } else {
                assert(i64_bytes(s).subrange(8 * i, 8 * i + 8) =~= be64(s.last() as u64));
            }
        }
    }
}


proof fn lemma_valid_elements(m: TagModel, n: int, k: int)
    requires
        valid_elements(m, n),
        0 <= k < n <= children_of(m).len(),
    ensures
        type_of(children_of(m)[k]) == list_type(m),
        valid_tag(children_of(m)[k], true),
    decreases n,
{
    if k < n - 1 {
        lemma_valid_elements(m, n - 1, k);
    }
}

proof fn lemma_valid_children(m: TagModel, n: int, k: int)
    requires
        valid_children(m, n),
        0 <= k < n <= children_of(m).len(),
    ensures
        type_of(children_of(m)[k]) != 0,
        valid_tag(children_of(m)[k], false),
    decreases n,
{
    if k < n - 1 {
        lemma_valid_children(m, n - 1, k);
    }
}

proof fn lemma_elements_prefix(b: Seq<u8>, start: int, m: TagModel, k: int, n: int)
    requires
        at(b, start, elements_bytes(m, n)),
        0 <= k <= n <= children_of(m).len(),
    ensures
        at(b, start, elements_bytes(m, k)),
    decreases n,
{
    if k < n {
        lemma_at_split(
            b,
            start,
            elements_bytes(m, n - 1),
            tag_bytes(children_of(m)[n - 1], true, true),
        );
        lemma_elements_prefix(b, start, m, k, n - 1);
    }
}

proof fn lemma_children_prefix(b: Seq<u8>, start: int, m: TagModel, k: int, n: int)
    requires
        at(b, start, children_bytes(m, n)),
        0 <= k <= n <= children_of(m).len(),
    ensures
        at(b, start, children_bytes(m, k)),
    decreases n,
{
    if k < n {
        lemma_at_split(
            b,
            start,
            children_bytes(m, n - 1),
            tag_bytes(children_of(m)[n - 1], false, false),
        );
        lemma_children_prefix(b, start, m, k, n - 1);
    }
}

proof fn lemma_full_tag_bytes(m: TagModel)
    ensures
        tag_bytes(m, false, false) == seq![type_of(m)] + tag_bytes(m, false, true),
{
    assert(tag_bytes(m, false, false) =~= seq![type_of(m)] + tag_bytes(m, false, true));
}

/// Parsing the encoding of a valid tag of known type gives the tag back.
proof fn lemma_parse_with_type(b: Seq<u8>, pos: int, m: TagModel, skip: bool)
    requires
        valid_tag(m, skip),
        at(b, pos, tag_bytes(m, skip, true)),
    ensures
        spec_parse_with_type(b, pos, type_of(m), skip) == Ok::<(TagModel, int), NbtError>(
            (m, pos + tag_bytes(m, skip, true).len()),
        ),
    decreases m, 3int, 0int,
{
    if type_of(m) == 0 {
        assert(tag_bytes(m, skip, true) =~= seq![]);
    } else {
        let nb = if skip {
            Seq::<u8>::empty()
        } else {
            name_bytes(name_of(m))
        };
        assert(tag_bytes(m, skip, true) =~= nb + payload_bytes(m));
        lemma_at_split(b, pos, nb, payload_bytes(m));
        if !skip {
            lemma_read_name(b, pos, name_of(m));
        }
        lemma_parse_payload(b, pos + nb.len(), m);
    }
}

proof fn lemma_parse_payload(b: Seq<u8>, p: int, m: TagModel)
    requires
        valid_payload(m),
        type_of(m) != 0,
        at(b, p, payload_bytes(m)),
    ensures
        spec_parse_payload(b, p, type_of(m), name_of(m)) == Ok::<(TagModel, int), NbtError>(
            (m, p + payload_bytes(m).len()),
        ),
    decreases m, 2int, 0int,
{
    lemma_casts(0, 0, 0, 0);
    match m {
        TagModel::Byte { value, .. } => {
            lemma_casts(value, 0, 0, 0);
            assert(b[p] == b.subrange(p, p + 1)[0]);
        },
        TagModel::Short { value, .. } => {
            lemma_casts(0, value, 0, 0);
            lemma_be16_round_trip(value as u16);
        },
        TagModel::Int { value, .. } => {
            lemma_casts(0, 0, value, 0);
            lemma_be32_round_trip(value as u32);
        },
        TagModel::Long { value, .. } => {
            lemma_casts(0, 0, 0, value);
            lemma_be64_round_trip(value as u64);
        },
        TagModel::Float { value, .. } => {
            lemma_be32_round_trip(value);
        },
        TagModel::Double { value, .. } => {
            lemma_be64_round_trip(value);
        },
        TagModel::ByteArray { .. } => {
            lemma_payload_byte_array(b, p, m);
        },
        TagModel::IntArray { .. } => {
            lemma_payload_int_array(b, p, m);
        },
        TagModel::LongArray { .. } => {
            lemma_payload_long_array(b, p, m);
        },
        TagModel::Str { value, .. } => {
            lemma_read_string(b, p, value);
        },
        TagModel::List { .. } => {
            lemma_payload_list(b, p, m);
        },
        TagModel::Compound { .. } => {
            lemma_payload_compound(b, p, m);
        },
        TagModel::End => {},
    }
}

proof fn lemma_payload_byte_array(b: Seq<u8>, p: int, m: TagModel)
    requires
        m is ByteArray,
        valid_payload(m),
        at(b, p, payload_bytes(m)),
    ensures
        spec_parse_payload(b, p, type_of(m), name_of(m)) == Ok::<(TagModel, int), NbtError>(
            (m, p + payload_bytes(m).len()),
        ),
    decreases m, 1int, 0int,
{
    match m {
        TagModel::ByteArray { value, .. } => {
            let n = value.len();
            lemma_at_split(b, p, count_bytes(n), i8_bytes(value));
            lemma_count(b, p, n);
            lemma_i8_bytes(value);
            lemma_be32_round_trip((n as i32) as u32);
            let (k, end) = spec_array_span(b, p, 1)->Ok_0;
            assert forall|i: int| 0 <= i < n implies b[p + 4 + i] as i8 == value[i] by {
                assert(b.subrange(p + 4, p + 4 + n)[i] == b[p + 4 + i]);
                lemma_casts(value[i], 0, 0, 0);
            }
            assert(Seq::new(k as nat, |i: int| b[p + 4 + i] as i8) =~= value);
        },

        _ => {},
    }
}

proof fn lemma_payload_int_array(b: Seq<u8>, p: int, m: TagModel)
    requires
        m is IntArray,
        valid_payload(m),
        at(b, p, payload_bytes(m)),
    ensures
        spec_parse_payload(b, p, type_of(m), name_of(m)) == Ok::<(TagModel, int), NbtError>(
            (m, p + payload_bytes(m).len()),
        ),
    decreases m, 1int, 0int,
{
    match m {
        TagModel::IntArray { value, .. } => {
            let n = value.len();
            lemma_at_split(b, p, count_bytes(n), i32_bytes(value));
            lemma_count(b, p, n);
            lemma_i32_bytes(value);
            lemma_be32_round_trip((n as i32) as u32);
            let (k, end) = spec_array_span(b, p, 4)->Ok_0;
            assert forall|i: int| 0 <= i < n implies u32_of(
                b.subrange(p + 4 + 4 * i, p + 8 + 4 * i),
            ) as i32 == value[i] by {
                lemma_at_sub(b, p + 4, i32_bytes(value), 4 * i, 4 * i + 4);
                lemma_be32_round_trip(value[i] as u32);
                lemma_casts(0, 0, value[i], 0);
            }
            assert(Seq::new(
                k as nat,
                |i: int| u32_of(b.subrange(p + 4 + 4 * i, p + 8 + 4 * i)) as i32,
            ) =~= value);
        },

        _ => {},
    }
}

proof fn lemma_payload_long_array(b: Seq<u8>, p: int, m: TagModel)
    requires
        m is LongArray,
        valid_payload(m),
        at(b, p, payload_bytes(m)),
    ensures
        spec_parse_payload(b, p, type_of(m), name_of(m)) == Ok::<(TagModel, int), NbtError>(
            (m, p + payload_bytes(m).len()),
        ),
    decreases m, 1int, 0int,
{
    match m {
        TagModel::LongArray { value, .. } => {
            let n = value.len();
            lemma_at_split(b, p, count_bytes(n), i64_bytes(value));
            lemma_count(b, p, n);
            lemma_i64_bytes(value);
            lemma_be32_round_trip((n as i32) as u32);
            let (k, end) = spec_array_span(b, p, 8)->Ok_0;
            assert forall|i: int| 0 <= i < n implies u64_of(
                b.subrange(p + 4 + 8 * i, p + 12 + 8 * i),
            ) as i64 == value[i] by {
                lemma_at_sub(b, p + 4, i64_bytes(value), 8 * i, 8 * i + 8);
                lemma_be64_round_trip(value[i] as u64);
                lemma_casts(0, 0, 0, value[i]);
            }
            assert(Seq::new(
                k as nat,
                |i: int| u64_of(b.subrange(p + 4 + 8 * i, p + 12 + 8 * i)) as i64,
            ) =~= value);
        },

        _ => {},
    }
}

proof fn lemma_payload_list(b: Seq<u8>, p: int, m: TagModel)
    requires
        m is List,
        valid_payload(m),
        at(b, p, payload_bytes(m)),
    ensures
        spec_parse_payload(b, p, type_of(m), name_of(m)) == Ok::<(TagModel, int), NbtError>(
            (m, p + payload_bytes(m).len()),
        ),
    decreases m, 1int, 0int,
{
    match m {
        TagModel::List { value, tag_type, .. } => {
            let n = value.len();
            let eb = elements_bytes(m, n as int);
            assert(payload_bytes(m) =~= seq![tag_type] + count_bytes(n) + eb);
            lemma_at_split(b, p, seq![tag_type] + count_bytes(n), eb);
            lemma_at_split(b, p, seq![tag_type], count_bytes(n));
            lemma_count(b, p + 1, n);
            assert(b[p] == b.subrange(p, p + 1)[0]);
            if n == 0 {
                assert(value =~= seq![]);
            } else {
                assert(elements_bytes(m, 0) =~= seq![]);
                lemma_list_items(b, p + 5, m, 0);
                assert(value.subrange(0, n as int) =~= value);
            }
        },

        _ => {},
    }
}

proof fn lemma_payload_compound(b: Seq<u8>, p: int, m: TagModel)
    requires
        m is Compound,
        valid_payload(m),
        at(b, p, payload_bytes(m)),
    ensures
        spec_parse_payload(b, p, type_of(m), name_of(m)) == Ok::<(TagModel, int), NbtError>(
            (m, p + payload_bytes(m).len()),
        ),
    decreases m, 1int, 0int,
{
    match m {
        TagModel::Compound { value, .. } => {
            let n = value.len();
            assert(payload_bytes(m) == children_bytes(m, n as int) + seq![0u8]);
            assert(children_bytes(m, 0) =~= seq![]);
            lemma_compound_items(b, p, m, 0);
            assert(value.subrange(0, n as int) =~= value);
        },

        _ => {},
    }
}

/// The elements of list `m` from the `k`-th on are parsed back from their encoding.
proof fn lemma_list_items(b: Seq<u8>, start: int, m: TagModel, k: int)
    requires
        m is List,
        valid_payload(m),
        0 <= k <= children_of(m).len(),
        at(b, start, elements_bytes(m, children_of(m).len() as int)),
    ensures
        spec_list_items(
            b,
            start + elements_bytes(m, k).len(),
            list_type(m),
            children_of(m).len() - k,
        ) == Ok::<(Seq<TagModel>, int), NbtError>(
            (
                children_of(m).subrange(k, children_of(m).len() as int),
                start + elements_bytes(m, children_of(m).len() as int).len(),
            ),
        ),
    decreases m, 0int, children_of(m).len() - k,
{
    let v = children_of(m);
    let n = v.len() as int;
    if k == n {
        assert(v.subrange(k, n) =~= seq![]);
    } else {
        let pk = start + elements_bytes(m, k).len();
        let c = v[k];
        lemma_elements_prefix(b, start, m, k + 1, n);
        lemma_at_split(b, start, elements_bytes(m, k), tag_bytes(c, true, true));
        lemma_valid_elements(m, n, k);
        assert(decreases_to!(m => c));
        lemma_parse_with_type(b, pk, c, true);
        lemma_list_items(b, start, m, k + 1);
        assert(seq![c] + v.subrange(k + 1, n) =~= v.subrange(k, n));
    }
}

proof fn lemma_compound_end(b: Seq<u8>, pos: int)
    requires
        0 <= pos < b.len(),
        b[pos] == 0,
    ensures
        spec_parse_compound(b, pos) == Ok::<(Seq<TagModel>, int), NbtError>((seq![], pos + 1)),
{
    assert(spec_parse_with_type(b, pos + 1, 0, false) == Ok::<(TagModel, int), NbtError>(
        (TagModel::End, pos + 1),
    ));
    assert(spec_parse_tag(b, pos) == Ok::<(TagModel, int), NbtError>((TagModel::End, pos + 1)));
    let r = spec_parse_compound(b, pos);
    assert(r == Ok::<(Seq<TagModel>, int), NbtError>((Seq::<TagModel>::empty(), pos + 1)));
}

proof fn lemma_compound_step(b: Seq<u8>, pos: int, c: TagModel, q: int)
    requires
        0 <= pos < q <= b.len(),
        spec_parse_tag(b, pos) == Ok::<(TagModel, int), NbtError>((c, q)),
        !(c is End),
    ensures
        spec_parse_compound(b, pos) == prepend(seq![c], spec_parse_compound(b, q)),
{
}

/// The children of compound `m` from the `k`-th on, then its end marker, are
/// parsed back from their encoding.
proof fn lemma_compound_items(b: Seq<u8>, start: int, m: TagModel, k: int)
    requires
        m is Compound,
        valid_payload(m),
        0 <= k <= children_of(m).len(),
        at(b, start, children_bytes(m, children_of(m).len() as int) + seq![0u8]),
    ensures
        spec_parse_compound(b, start + children_bytes(m, k).len()) == Ok::<
            (Seq<TagModel>, int),
            NbtError,
        >(
            (
                children_of(m).subrange(k, children_of(m).len() as int),
                start + children_bytes(m, children_of(m).len() as int).len() + 1,
            ),
        ),
    decreases m, 0int, children_of(m).len() - k,
{
    let v = children_of(m);
    let n = v.len() as int;
    lemma_at_split(b, start, children_bytes(m, n), seq![0u8]);
    if k == n {
        let pos = start + children_bytes(m, n).len();
        assert(b[pos] == b.subrange(pos, pos + 1)[0]);
        lemma_compound_end(b, pos);
        assert(v.subrange(k, n) =~= seq![]);
    } else {
        let pk = start + children_bytes(m, k).len();
        let c = v[k];
        lemma_children_prefix(b, start, m, k + 1, n);
        lemma_at_split(b, start, children_bytes(m, k), tag_bytes(c, false, false));
        lemma_valid_children(m, n, k);
        lemma_full_tag_bytes(c);
        lemma_at_split(b, pk, seq![type_of(c)], tag_bytes(c, false, true));
        assert(b[pk] == b.subrange(pk, pk + 1)[0]);
        assert(decreases_to!(m => c));
        lemma_parse_with_type(b, pk + 1, c, false);
        let q = pk + 1 + tag_bytes(c, false, true).len();
        assert(children_bytes(m, k + 1) == children_bytes(m, k) + tag_bytes(c, false, false));
        assert(q == start + children_bytes(m, k + 1).len());
        assert(spec_parse_tag(b, pk) == Ok::<(TagModel, int), NbtError>((c, q)));
        lemma_compound_step(b, pk, c, q);
        lemma_compound_items(b, start, m, k + 1);
        assert(seq![c] + v.subrange(k + 1, n) =~= v.subrange(k, n));
    }
}

/// Parsing the complete encoding of a valid tag gives the tag back and
/// consumes exactly the encoding.
pub proof fn lemma_parse_tag_bytes(b: Seq<u8>, pos: int, m: TagModel)
    requires
        valid_tag(m, false),
        at(b, pos, tag_bytes(m, false, false)),
    ensures
        spec_parse_tag(b, pos) == Ok::<(TagModel, int), NbtError>(
            (m, pos + tag_bytes(m, false, false).len()),
        ),
{
    lemma_full_tag_bytes(m);
    lemma_at_split(b, pos, seq![type_of(m)], tag_bytes(m, false, true));
    assert(b[pos] == b.subrange(pos, pos + 1)[0]);
    lemma_parse_with_type(b, pos + 1, m, false);
}


proof fn lemma_sound_string(b: Seq<u8>, pos: int)
    requires
        spec_read_string(b, pos) is Ok,
    ensures
        storable(spec_read_string(b, pos)->Ok_0.0),
        pos < spec_read_string(b, pos)->Ok_0.1 <= b.len(),
{
    let end = pos + 2 + u16_of(b.subrange(pos, pos + 2)) as int;
    decode_utf8_encode_utf8(b.subrange(pos + 2, end));
}

proof fn lemma_sound_name(b: Seq<u8>, pos: int)
    requires
        spec_read_name(b, pos) is Ok,
    ensures
        valid_name(spec_read_name(b, pos)->Ok_0.0),
        pos < spec_read_name(b, pos)->Ok_0.1 <= b.len(),
{
    lemma_sound_string(b, pos);
}

proof fn lemma_elements_of(m: TagModel, n: int)
    requires
        0 <= n <= children_of(m).len(),
        forall|i: int|
            0 <= i < n ==> type_of(#[trigger] children_of(m)[i]) == list_type(m) && valid_tag(
                children_of(m)[i],
                true,
            ),
    ensures
        valid_elements(m, n),
    decreases n,
{
    if n > 0 {
        lemma_elements_of(m, n - 1);
    }
}

proof fn lemma_children_of(m: TagModel, n: int)
    requires
        0 <= n <= children_of(m).len(),
        forall|i: int|
            0 <= i < n ==> type_of(#[trigger] children_of(m)[i]) != 0 && valid_tag(
                children_of(m)[i],
                false,
            ),
    ensures
        valid_children(m, n),
    decreases n,
{
    if n > 0 {
        lemma_children_of(m, n - 1);
    }
}

/// Every tag that the parser produces is valid.
pub proof fn lemma_sound_tag(b: Seq<u8>, pos: int)
    requires
        spec_parse_tag(b, pos) is Ok,
    ensures
        valid_tag(spec_parse_tag(b, pos)->Ok_0.0, false),
        pos < spec_parse_tag(b, pos)->Ok_0.1 <= b.len(),
    decreases b.len() - pos, 0int, 0int,
{
    lemma_sound_with_type(b, pos + 1, b[pos], false);
}

proof fn lemma_sound_with_type(b: Seq<u8>, pos: int, tag_type: u8, skip_name: bool)
    requires
        spec_parse_with_type(b, pos, tag_type, skip_name) is Ok,
    ensures
        valid_tag(spec_parse_with_type(b, pos, tag_type, skip_name)->Ok_0.0, skip_name),
        type_of(spec_parse_with_type(b, pos, tag_type, skip_name)->Ok_0.0) == tag_type,
        pos <= spec_parse_with_type(b, pos, tag_type, skip_name)->Ok_0.1 <= b.len(),
    decreases b.len() - pos, 3int, 0int,
{
    if tag_type != 0 {
        let p = if skip_name {
            pos
        } else {
            lemma_sound_name(b, pos);
            spec_read_name(b, pos)->Ok_0.1
        };
        let name = if skip_name {
            None
        } else {
            spec_read_name(b, pos)->Ok_0.0
        };
        lemma_sound_payload(b, p, tag_type, name);
    }
}

proof fn lemma_sound_payload(b: Seq<u8>, pos: int, tag_type: u8, name: Option<Seq<char>>)
    requires
        spec_parse_payload(b, pos, tag_type, name) is Ok,
    ensures
        valid_payload(spec_parse_payload(b, pos, tag_type, name)->Ok_0.0),
        type_of(spec_parse_payload(b, pos, tag_type, name)->Ok_0.0) == tag_type,
        name_of(spec_parse_payload(b, pos, tag_type, name)->Ok_0.0) == name,
        pos <= spec_parse_payload(b, pos, tag_type, name)->Ok_0.1 <= b.len(),
    decreases b.len() - pos, 2int, 0int,
{
    if tag_type == 7 || tag_type == 11 || tag_type == 12 {
        let width: int = if tag_type == 7 {
            1
        } else if tag_type == 11 {
            4
        } else {
            8
        };
        let (n, end) = spec_array_span(b, pos, width)->Ok_0;
        assert(n * width >= 0) by (nonlinear_arith)
            requires
                n >= 0,
                width >= 1,
        ;
    } else if tag_type == 8 {
        lemma_sound_string(b, pos);
    } else if tag_type == 9 {
        lemma_sound_list(b, pos);
        let m = spec_parse_payload(b, pos, tag_type, name)->Ok_0.0;
        lemma_elements_of(m, children_of(m).len() as int);
    } else if tag_type == 10 {
        lemma_sound_compound(b, pos);
        let m = spec_parse_payload(b, pos, tag_type, name)->Ok_0.0;
        lemma_children_of(m, children_of(m).len() as int);
    }
}

proof fn lemma_sound_list(b: Seq<u8>, pos: int)
    requires
        spec_parse_list(b, pos) is Ok,
    ensures
        ({
            let ((t, v), q) = spec_parse_list(b, pos)->Ok_0;
            &&& v.len() <= 0x7fffffff
            &&& pos <= q <= b.len()
            &&& forall|i: int|
                0 <= i < v.len() ==> type_of(#[trigger] v[i]) == t && valid_tag(v[i], true)
        }),
    decreases b.len() - pos, 1int, 0int,
{
    let n = count_at(b, pos + 1);
    if n > 0 {
        lemma_sound_list_items(b, pos + 5, b[pos], n);
    }
}

proof fn lemma_sound_list_items(b: Seq<u8>, pos: int, tag_type: u8, n: int)
    requires
        spec_list_items(b, pos, tag_type, n) is Ok,
    ensures
        ({
            let (v, q) = spec_list_items(b, pos, tag_type, n)->Ok_0;
            &&& v.len() == if n <= 0 {
                0
            } else {
                n
            }
            &&& (n > 0 ==> pos <= q <= b.len())
            &&& forall|i: int|
                0 <= i < v.len() ==> type_of(#[trigger] v[i]) == tag_type && valid_tag(v[i], true)
        }),
    decreases b.len() - pos, 4int, n,
{
    if n > 0 {
        lemma_sound_with_type(b, pos, tag_type, true);
        let (m, q) = spec_parse_with_type(b, pos, tag_type, true)->Ok_0;
        lemma_sound_list_items(b, q, tag_type, n - 1);
        let (rest, r) = spec_list_items(b, q, tag_type, n - 1)->Ok_0;
        let v = spec_list_items(b, pos, tag_type, n)->Ok_0.0;
        assert(v == seq![m] + rest);
        assert forall|i: int| 0 <= i < v.len() implies type_of(#[trigger] v[i]) == tag_type
            && valid_tag(v[i], true) by {
            if i > 0 {
                assert(v[i] == rest[i - 1]);
            }
        }
    }
}

proof fn lemma_sound_compound(b: Seq<u8>, pos: int)
    requires
        spec_parse_compound(b, pos) is Ok,
    ensures
        ({
            let (v, q) = spec_parse_compound(b, pos)->Ok_0;
            &&& pos <= q <= b.len()
            &&& forall|i: int|
                0 <= i < v.len() ==> type_of(#[trigger] v[i]) != 0 && valid_tag(v[i], false)
        }),
    decreases b.len() - pos, 1int, 0int,
{
    lemma_sound_tag(b, pos);
    let (m, q) = spec_parse_tag(b, pos)->Ok_0;
    if !(m is End) {
        lemma_sound_compound(b, q);
        let (rest, r) = spec_parse_compound(b, q)->Ok_0;
        let v = spec_parse_compound(b, pos)->Ok_0.0;
        assert(v == seq![m] + rest);
        assert(type_of(m) != 0);
        assert forall|i: int| 0 <= i < v.len() implies type_of(#[trigger] v[i]) != 0 && valid_tag(
            v[i],
            false,
        ) by {
            if i > 0 {
                assert(v[i] == rest[i - 1]);
            }
        }
    }
}


/// A buffer holding exactly the encoding of a tag that the parser can produce.
pub open spec fn well_formed(b: Seq<u8>) -> bool {
    exists|m: TagModel| valid_tag(m, false) && tag_bytes(m, false, false) == b
}

/// For every tag that the parser produces, parsing its encoding gives the
/// same tag back and consumes exactly that encoding.
pub proof fn law_parse_of_serialized(b: Seq<u8>, pos: int)
    requires
        spec_parse_tag(b, pos) is Ok,
    ensures
        ({
            let m = spec_parse_tag(b, pos)->Ok_0.0;
            let e = tag_bytes(m, false, false);
            spec_parse_tag(e, 0) == Ok::<(TagModel, int), NbtError>((m, e.len() as int))
        }),
{
    lemma_sound_tag(b, pos);
    let m = spec_parse_tag(b, pos)->Ok_0.0;
    let e = tag_bytes(m, false, false);
    assert(e.subrange(0, e.len() as int) =~= e);
    lemma_parse_tag_bytes(e, 0, m);
}

/// For every well-formed buffer, serializing the tag that the parser reads
/// from it gives back the buffer byte for byte, and the parser reads all of it.
pub proof fn law_serialize_of_parsed(b: Seq<u8>)
    requires
        well_formed(b),
    ensures
        spec_parse_tag(b, 0) is Ok,
        spec_parse_tag(b, 0)->Ok_0.1 == b.len(),
        tag_bytes(spec_parse_tag(b, 0)->Ok_0.0, false, false) == b,
{
    let m = choose|m: TagModel| valid_tag(m, false) && tag_bytes(m, false, false) == b;
    assert(b.subrange(0, b.len() as int) =~= b);
    lemma_parse_tag_bytes(b, 0, m);
}

} // verus!
