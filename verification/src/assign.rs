//! Setting a field from text: what a piece of text means for each field
//! type (integers, group tags, enum option names, flag masks, block
//! indices, strings, string ids, tag references and API interop values),
//! and the write that [`TagFieldMut::parse_and_set`] makes.
use vstd::prelude::*;
use vstd::utf8::encode_utf8;

use crate::api::{reference_at, string_id_of, TagSetError};
use crate::bytes::{le_u16, le_u32, le_u64, push_u32_le, u32_le_bytes};
use crate::data::{entry_from, entry_of, find_entry, struct_ok, TagStructData, TagSubChunkContent, TagSubChunkEntry};
use crate::editing::TagFieldMut;
use crate::fields::{lemma_string_id_roundtrip, lemma_tag_reference_roundtrip, packed_group_tag, parse_group_tag, payload_of_reference, reference_of_payload, string_bytes, TagFieldType, TagReferenceData};
use crate::layout::TagLayout;
use crate::numtext::{
    chars_eq_ignore_case, eq_ignore_ascii_case, eq_ignore_case, int_text_value, is_none_word, none_word,
    parse_decimal, parse_int_chars, trim_range, trimmed,
};
use crate::text::chars_of;

verus! {

//================================================================================
// What text means
//================================================================================

/// A flags mask: decimal, or hexadecimal after `0x` / `0x`, as an `i64`.
pub open spec fn mask_text_value(s: Seq<char>) -> Option<int> {
    if s.len() >= 2 && s[0] == '0' && (s[1] == 'x' || s[1] == 'X') {
        int_text_value(s.skip(2), 16, i64::MIN as int, i64::MAX as int)
    } else {
        int_text_value(s, 10, i64::MIN as int, i64::MAX as int)
    }
}

/// A block index: `none` (any case) is `-1`, else a decimal `i32`.
pub open spec fn block_index_text_value(s: Seq<char>) -> Option<int> {
    if eq_ignore_case(s, none_word()) {
        Some(-1)
    } else {
        int_text_value(s, 10, i32::MIN as int, i32::MAX as int)
    }
}

/// The first option of field `fi`'s string list, at or after `k`, whose
/// name equals `name` up to ASCII case.
pub open spec fn enum_option_from(layout: TagLayout, fi: int, k: int, name: Seq<char>) -> Option<u32>
    decreases layout.string_lists@[layout.fields@[fi].definition as int].count - k,
{
    let d = layout.fields@[fi].definition as int;
    if d >= layout.string_lists@.len() || k < 0 || k >= layout.string_lists@[d].count {
        None
    } else {
        let idx = layout.string_lists@[d].first + k;
        if idx < layout.string_offsets@.len() && (layout.spec_get_string(layout.string_offsets@[idx]) matches Some(
            c,
        ) && eq_ignore_case(c, name)) {
            Some(k as u32)
        } else {
            enum_option_from(layout, fi, k + 1, name)
        }
    }
}

/// An enum value: a decimal `i32`, else the index of the option named
/// `s` (any ASCII case).
pub open spec fn enum_text_value(layout: TagLayout, fi: int, s: Seq<char>) -> Option<int> {
    match int_text_value(s, 10, i32::MIN as int, i32::MAX as int) {
        Some(v) => Some(v),
        None => match enum_option_from(layout, fi, 0, s) {
            Some(k) => Some(k as int),
            None => None,
        },
    }
}

/// Position of the first `:` in `s` at or after `k`.
pub open spec fn colon_from(s: Seq<char>, k: int) -> Option<int>
    decreases s.len() - k,
{
    if k < 0 || k >= s.len() {
        None
    } else if s[k] == ':' {
        Some(k)
    } else {
        colon_from(s, k + 1)
    }
}

/// A tag reference: `none` (any case) or empty text is the null
/// reference; otherwise `GROUP:path`, split at the first `:`, with a
/// group tag of at most four bytes. `None` when the text is neither.
pub open spec fn reference_text_value(s: Seq<char>) -> Option<Option<(u32, Seq<char>)>> {
    if eq_ignore_case(s, none_word()) || s.len() == 0 {
        Some(None)
    } else {
        match colon_from(s, 0) {
            None => None,
            Some(k) => {
                let g = encode_utf8(s.take(k));
                if g.len() > 4 {
                    None
                } else {
                    Some(Some((packed_group_tag(g), s.skip(k + 1))))
                }
            },
        }
    }
}

/// Position of the first `,` in `s` at or after `k`.
pub open spec fn comma_from(s: Seq<char>, k: int) -> Option<int>
    decreases s.len() - k,
{
    if k < 0 || k >= s.len() {
        None
    } else if s[k] == ',' {
        Some(k)
    } else {
        comma_from(s, k + 1)
    }
}

/// A `u32` as `u32::from_str_radix` reads it: hexadecimal after `0x` /
/// `0X`, else decimal; an optional `+`, no `-`.
pub open spec fn u32_text_value(p: Seq<char>) -> Option<int> {
    let hex = p.len() >= 2 && p[0] == '0' && (p[1] == 'x' || p[1] == 'X');
    let body = if hex {
        p.skip(2)
    } else {
        p
    };
    if body.len() > 0 && body[0] == '-' {
        None
    } else {
        int_text_value(body, if hex { 16 } else { 10 }, 0, u32::MAX as int)
    }
}

/// The word `reset`.
pub open spec fn reset_word() -> Seq<char> {
    seq!['r', 'e', 's', 'e', 't']
}

/// The 12 payload bytes of an API interop value: descriptor, address and
/// definition address, each little-endian.
pub open spec fn api_interop_bytes(descriptor: u32, address: u32, definition_address: u32) -> Seq<u8> {
    u32_le_bytes(descriptor) + u32_le_bytes(address) + u32_le_bytes(definition_address)
}

/// An API interop value, after trimming white space: `reset` or `none`
/// (any ASCII case) is the reset pattern (descriptor 0, address
/// `u32::MAX`, definition address 0); otherwise exactly three
/// comma-separated `u32`s ([`u32_text_value`]), each trimmed.
pub open spec fn api_interop_text_value(s: Seq<char>) -> Option<Seq<u8>> {
    let t = trimmed(s);
    if eq_ignore_case(t, reset_word()) || eq_ignore_case(t, none_word()) {
        Some(api_interop_bytes(0, u32::MAX, 0))
    } else {
        match comma_from(t, 0) {
            None => None,
            Some(i) => match comma_from(t, i + 1) {
                None => None,
                Some(j) => if comma_from(t, j + 1) is Some {
                    None
                } else {
                    match (
                        u32_text_value(trimmed(t.subrange(0, i))),
                        u32_text_value(trimmed(t.subrange(i + 1, j))),
                        u32_text_value(trimmed(t.subrange(j + 1, t.len() as int))),
                    ) {
                        (Some(a), Some(b), Some(c)) => Some(api_interop_bytes(a as u32, b as u32, c as u32)),
                        _ => None,
                    }
                },
            },
        }
    }
}

/// The write that setting a field from text makes.
pub enum FieldWrite {
    /// The field's bytes become the low bytes of this integer (two's
    /// complement), little-endian.
    Int(int),
    /// The field's bytes become these bytes, cut to the field's width and
    /// padded with zeros.
    Text(Seq<u8>),
    /// The field's sub-chunk becomes a string id with this payload.
    StringId(Seq<u8>),
    /// The field's sub-chunk becomes an old-style string id with this
    /// payload.
    OldStringId(Seq<u8>),
    /// The field's sub-chunk becomes a tag reference with this payload.
    Reference(Seq<u8>),
    /// The field's sub-chunk becomes an API interop payload with these
    /// bytes.
    ApiInterop(Seq<u8>),
}

/// Why text could not be written to a field.
pub enum WriteRefusal {
    /// The text has no meaning for the field's type, or the type is not
    /// set from text.
    Unparsable,
    /// The field is a container.
    Container,
}

/// An integer write, or a refusal when the text gave no integer.
pub open spec fn int_write(v: Option<int>) -> Result<FieldWrite, WriteRefusal> {
    match v {
        Some(v) => Ok(FieldWrite::Int(v)),
        None => Err(WriteRefusal::Unparsable),
    }
}

/// What setting field `fi` from the text `s` does.
pub open spec fn field_write(layout: TagLayout, fi: int, s: Seq<char>) -> Result<FieldWrite, WriteRefusal> {
    match layout.fields@[fi].field_type {
        TagFieldType::CharInteger => int_write(int_text_value(s, 10, i8::MIN as int, i8::MAX as int)),
        TagFieldType::ShortInteger => int_write(int_text_value(s, 10, i16::MIN as int, i16::MAX as int)),
        TagFieldType::LongInteger => int_write(int_text_value(s, 10, i32::MIN as int, i32::MAX as int)),
        TagFieldType::Int64Integer => int_write(int_text_value(s, 10, i64::MIN as int, i64::MAX as int)),
        TagFieldType::Tag => if encode_utf8(s).len() > 4 {
            Err(WriteRefusal::Unparsable)
        } else {
            Ok(FieldWrite::Int(packed_group_tag(encode_utf8(s)) as int))
        },
        TagFieldType::CharEnum | TagFieldType::ShortEnum | TagFieldType::LongEnum => int_write(
            enum_text_value(layout, fi, s),
        ),
        TagFieldType::ByteFlags | TagFieldType::WordFlags | TagFieldType::LongFlags | TagFieldType::ByteBlockFlags
        | TagFieldType::WordBlockFlags | TagFieldType::LongBlockFlags => int_write(mask_text_value(s)),
        TagFieldType::CharBlockIndex | TagFieldType::CustomCharBlockIndex | TagFieldType::ShortBlockIndex
        | TagFieldType::CustomShortBlockIndex | TagFieldType::LongBlockIndex
        | TagFieldType::CustomLongBlockIndex => int_write(block_index_text_value(s)),
        TagFieldType::String | TagFieldType::LongString => Ok(FieldWrite::Text(encode_utf8(s))),
        TagFieldType::StringId => Ok(FieldWrite::StringId(encode_utf8(s))),
        TagFieldType::OldStringId => Ok(FieldWrite::OldStringId(encode_utf8(s))),
        TagFieldType::TagReference => match reference_text_value(s) {
            Some(r) => Ok(FieldWrite::Reference(payload_of_reference(r))),
            None => Err(WriteRefusal::Unparsable),
        },
        TagFieldType::ApiInterop => match api_interop_text_value(s) {
            Some(b) => Ok(FieldWrite::ApiInterop(b)),
            None => Err(WriteRefusal::Unparsable),
        },
        TagFieldType::Struct | TagFieldType::Block | TagFieldType::Array | TagFieldType::PageableResource => Err(
            WriteRefusal::Container,
        ),
        _ => Err(WriteRefusal::Unparsable),
    }
}

/// Whether a write replaces the field's sub-chunk.
pub open spec fn is_chunk_write(w: FieldWrite) -> bool {
    w is StringId || w is OldStringId || w is Reference || w is ApiInterop
}

/// The sub-chunk payload `c` is what the write `w` puts there.
pub open spec fn chunk_holds(c: TagSubChunkContent, w: FieldWrite) -> bool {
    match (c, w) {
        (TagSubChunkContent::StringId(v), FieldWrite::StringId(b)) => v@ == b,
        (TagSubChunkContent::OldStringId(v), FieldWrite::OldStringId(b)) => v@ == b,
        (TagSubChunkContent::TagReference(v), FieldWrite::Reference(b)) => v@ == b,
        (TagSubChunkContent::ApiInterop(v), FieldWrite::ApiInterop(b)) => v@ == b,
        _ => false,
    }
}

//================================================================================
// Byte writes
//================================================================================

/// Byte `k` (little-endian) of the two's complement of `v`.
pub open spec fn int_byte(v: int, k: int) -> u8 {
    (((v as u64) >> ((8 * k) as u64)) & 0xffu64) as u8
}

/// `buf` with the low `w` bytes of `v` stored little-endian at `p`.
pub open spec fn put_int(buf: Seq<u8>, p: int, w: int, v: int) -> Seq<u8> {
    Seq::new(buf.len(), |i: int| if p <= i < p + w { int_byte(v, i - p) } else { buf[i] })
}

/// `buf` with `w` bytes at `p` replaced by `bytes`, cut to `w` and padded
/// with zeros.
pub open spec fn put_text(buf: Seq<u8>, p: int, w: int, bytes: Seq<u8>) -> Seq<u8> {
    Seq::new(
        buf.len(),
        |i: int|
            if p <= i < p + w {
                if i - p < bytes.len() {
                    bytes[i - p]
                } else {
                    0u8
                }
            } else {
                buf[i]
            },
    )
}

fn store_int(buf: &mut Vec<u8>, p: usize, w: usize, v: i64)
    requires
        p + w <= old(buf)@.len(),
        w <= 8,
    ensures
        final(buf)@ == put_int(old(buf)@, p as int, w as int, v as int),
{
    let u = v as u64;
    let total = buf.len();
    let mut k: usize = 0;
    while k < w
        invariant
            k <= w <= 8,
            p + w <= total,
            p + w <= buf@.len(),
            buf@.len() == old(buf)@.len(),
            u == v as u64,
            forall|i: int|
                0 <= i < buf@.len() ==> #[trigger] buf@[i] == if p <= i < p + k {
                    int_byte(v as int, i - p)
                } else {
                    old(buf)@[i]
                },
        decreases w - k,
    {
        let b = ((u >> ((8 * k) as u64)) & 0xff) as u8;
        assert(b == int_byte(v as int, (p + k) - p));
        buf.set(p + k, b);
        k = k + 1;
    }
    assert(buf@ =~= put_int(old(buf)@, p as int, w as int, v as int));
}

fn store_text(buf: &mut Vec<u8>, p: usize, w: usize, bytes: &[u8])
    requires
        p + w <= old(buf)@.len(),
    ensures
        final(buf)@ == put_text(old(buf)@, p as int, w as int, bytes@),
{
    let total = buf.len();
    let mut k: usize = 0;
    while k < w
        invariant
            k <= w,
            p + w <= total,
            p + w <= buf@.len(),
            buf@.len() == old(buf)@.len(),
            forall|i: int|
                0 <= i < buf@.len() ==> #[trigger] buf@[i] == if p <= i < p + k {
                    if i - p < bytes@.len() {
                        bytes@[i - p]
                    } else {
                        0u8
                    }
                } else {
                    old(buf)@[i]
                },
        decreases w - k,
    {
        let b = if k < bytes.len() {
            bytes[k]
        } else {
            0u8
        };
        buf.set(p + k, b);
        k = k + 1;
    }
    assert(buf@ =~= put_text(old(buf)@, p as int, w as int, bytes@));
}

//================================================================================
// Parsers
//================================================================================

/// A flags mask ([`mask_text_value`]).
pub fn parse_int_mask(s: &str) -> (r: Option<i64>)
    ensures
        match mask_text_value(s@) {
            Some(v) => r == Some(v as i64),
            None => r is None,
        },
{
    let cs = chars_of(s);
    if cs.len() >= 2 && cs[0] == '0' && (cs[1] == 'x' || cs[1] == 'X') {
        parse_int_chars(&cs, 2, 16, i64::MIN, i64::MAX)
    } else {
        assert(cs@.skip(0) =~= cs@);
        parse_int_chars(&cs, 0, 10, i64::MIN, i64::MAX)
    }
}

/// A block index ([`block_index_text_value`]).
pub fn parse_block_index(s: &str) -> (r: Option<i64>)
    ensures
        match block_index_text_value(s@) {
            Some(v) => r == Some(v as i64),
            None => r is None,
        },
{
    if is_none_word(s) {
        Some(-1)
    } else {
        parse_decimal(s, i32::MIN as i64, i32::MAX as i64)
    }
}

/// Index of the option of field `fi` named `name` up to ASCII case.
pub fn find_enum_option_index(layout: &TagLayout, fi: usize, name: &str) -> (r: Option<u32>)
    requires
        layout.wf(),
        fi < layout.fields@.len(),
    ensures
        r == enum_option_from(*layout, fi as int, 0, name@),
{
    let d = layout.fields[fi].definition as usize;
    if d >= layout.string_lists.len() {
        return None;
    }
    let sl = layout.string_lists[d];
    let mut k: u32 = 0;
    while k < sl.count
        invariant
            layout.wf(),
            d == layout.fields@[fi as int].definition,
            d < layout.string_lists@.len(),
            sl == layout.string_lists@[d as int],
            k <= sl.count,
            enum_option_from(*layout, fi as int, 0, name@) == enum_option_from(*layout, fi as int, k as int, name@),
        decreases sl.count - k,
    {
        let idx = (sl.first + k) as usize;
        if idx < layout.string_offsets.len() {
            match layout.get_string(layout.string_offsets[idx]) {
                Some(c) => {
                    if eq_ignore_ascii_case(c, name) {
                        return Some(k);
                    }
                },
                None => {},
            }
        }
        k = k + 1;
    }
    None
}

/// An enum value ([`enum_text_value`]).
pub fn parse_enum_value(layout: &TagLayout, fi: usize, s: &str) -> (r: Option<i64>)
    requires
        layout.wf(),
        fi < layout.fields@.len(),
    ensures
        match enum_text_value(*layout, fi as int, s@) {
            Some(v) => r == Some(v as i64),
            None => r is None,
        },
{
    match parse_decimal(s, i32::MIN as i64, i32::MAX as i64) {
        Some(v) => Some(v),
        None => match find_enum_option_index(layout, fi, s) {
            Some(k) => Some(k as i64),
            None => None,
        },
    }
}

/// A tag reference ([`reference_text_value`]).
pub fn parse_tag_reference(s: &str) -> (r: Option<TagReferenceData>)
    ensures
        match reference_text_value(s@) {
            Some(v) => r matches Some(d) && d@ == v,
            None => r is None,
        },
{
    if is_none_word(s) || s.is_empty() {
        return Some(TagReferenceData { group_tag_and_name: None });
    }
    let cs = chars_of(s);
    let n = cs.len();
    let mut k: usize = 0;
    while k < n
        invariant
            k <= n == cs@.len(),
            cs@ == s@,
            colon_from(s@, 0) == colon_from(s@, k as int),
        decreases n - k,
    {
        if cs[k] == ':' {
            let group = s.substring_char(0, k);
            let path = s.substring_char(k + 1, n).to_owned();
            assert(group@ == s@.take(k as int));
            assert(path@ == s@.skip(k + 1));
            return match parse_group_tag(group) {
                Some(g) => Some(TagReferenceData { group_tag_and_name: Some((g, path)) }),
                None => None,
            };
        }
        k = k + 1;
    }
    None
}

/// The first `,` of `cs[from..to]`, or `to` when there is none.
fn find_comma(cs: &Vec<char>, from: usize, to: usize) -> (r: usize)
    requires
        from <= to <= cs@.len(),
    ensures
        from <= r <= to,
        r < to ==> comma_from(cs@.subrange(0, to as int), from as int) == Some(r as int),
        r == to ==> comma_from(cs@.subrange(0, to as int), from as int) is None,
{
    let ghost t = cs@.subrange(0, to as int);
    let mut k = from;
    while k < to
        invariant
            from <= k <= to <= cs@.len(),
            t == cs@.subrange(0, to as int),
            comma_from(t, from as int) == comma_from(t, k as int),
        decreases to - k,
    {
        if cs[k] == ',' {
            return k;
        }
        k = k + 1;
    }
    k
}

/// `cs[from..to]`, trimmed, as a `u32` ([`u32_text_value`]).
fn parse_u32_part(cs: &Vec<char>, from: usize, to: usize) -> (r: Option<u32>)
    requires
        from <= to <= cs@.len(),
    ensures
        match u32_text_value(trimmed(cs@.subrange(from as int, to as int))) {
            Some(v) => r == Some(v as u32),
            None => r is None,
        },
{
    let (a, b) = trim_range(cs, from, to);
    let part: Vec<char> = vstd::slice::slice_to_vec(vstd::slice::slice_subrange(cs.as_slice(), a, b));
    let ghost p = part@;
    assert(p == trimmed(cs@.subrange(from as int, to as int)));
    let hex = part.len() >= 2 && part[0] == '0' && (part[1] == 'x' || part[1] == 'X');
    let start: usize = if hex {
        2
    } else {
        0
    };
    assert(part@.skip(0) =~= part@);
    if start < part.len() && part[start] == '-' {
        return None;
    }
    let radix: u32 = if hex {
        16
    } else {
        10
    };
    match parse_int_chars(&part, start, radix, 0, u32::MAX as i64) {
        Some(v) => Some(v as u32),
        None => None,
    }
}

/// An API interop value ([`api_interop_text_value`]).
pub fn parse_api_interop(s: &str) -> (r: Option<Vec<u8>>)
    ensures
        match api_interop_text_value(s@) {
            Some(b) => r matches Some(v) && v@ == b,
            None => r is None,
        },
{
    let cs = chars_of(s);
    let n = cs.len();
    assert(cs@.subrange(0, n as int) =~= cs@);
    let (a, b) = trim_range(&cs, 0, n);
    let t: Vec<char> = vstd::slice::slice_to_vec(vstd::slice::slice_subrange(cs.as_slice(), a, b));
    assert(t@ == trimmed(s@));
    let reset: Vec<char> = vec!['r', 'e', 's', 'e', 't'];
    let none: Vec<char> = vec!['n', 'o', 'n', 'e'];
    assert(reset@ =~= reset_word());
    assert(none@ =~= none_word());
    let mut out: Vec<u8> = Vec::new();
    if chars_eq_ignore_case(&t, &reset) || chars_eq_ignore_case(&t, &none) {
        push_u32_le(&mut out, 0);
        push_u32_le(&mut out, u32::MAX);
        push_u32_le(&mut out, 0);
        assert(out@ =~= api_interop_bytes(0, u32::MAX, 0));
        return Some(out);
    }
    let m = t.len();
    assert(t@.subrange(0, m as int) =~= t@);
    let i = find_comma(&t, 0, m);
    if i == m {
        return None;
    }
    let j = find_comma(&t, i + 1, m);
    if j == m {
        return None;
    }
    let k = find_comma(&t, j + 1, m);
    if k < m {
        return None;
    }
    let d = parse_u32_part(&t, 0, i);
    let ad = parse_u32_part(&t, i + 1, j);
    let da = parse_u32_part(&t, j + 1, m);
    match (d, ad, da) {
        (Some(x), Some(y), Some(z)) => {
            push_u32_le(&mut out, x);
            push_u32_le(&mut out, y);
            push_u32_le(&mut out, z);
            assert(out@ =~= api_interop_bytes(x, y, z));
            Some(out)
        },
        _ => None,
    }
}

//================================================================================
// Setting a field
//================================================================================

/// Inline width of the integer-valued field types.
pub(crate) fn int_width(t: TagFieldType) -> (w: usize)
    ensures
        w == TagLayout::value_width(t),
{
    match t {
        TagFieldType::CharInteger | TagFieldType::CharEnum | TagFieldType::ByteFlags | TagFieldType::ByteBlockFlags
        | TagFieldType::CharBlockIndex | TagFieldType::CustomCharBlockIndex => 1,
        TagFieldType::ShortInteger | TagFieldType::ShortEnum | TagFieldType::WordFlags | TagFieldType::WordBlockFlags
        | TagFieldType::ShortBlockIndex | TagFieldType::CustomShortBlockIndex => 2,
        TagFieldType::LongInteger | TagFieldType::LongEnum | TagFieldType::LongFlags | TagFieldType::Tag
        | TagFieldType::LongBlockFlags | TagFieldType::LongBlockIndex | TagFieldType::CustomLongBlockIndex
        | TagFieldType::Point2d | TagFieldType::RgbColor | TagFieldType::ArgbColor | TagFieldType::Angle
        | TagFieldType::Real | TagFieldType::RealSlider | TagFieldType::RealFraction => 4,
        TagFieldType::Rectangle2d => 8,
        TagFieldType::Int64Integer => 8,
        TagFieldType::String => 32,
        TagFieldType::LongString => 256,
        _ => 0,
    }
}

/// The struct `new` is `old` with the sub-chunk of field `fi` replaced
/// by the payload the write `w` gives.
pub open spec fn chunk_replaced(old: TagStructData, new: TagStructData, fi: int, w: FieldWrite) -> bool {
    &&& new.struct_index == old.struct_index
    &&& entry_of(old.sub_chunks@, fi) matches Some(j) && {
        &&& new.sub_chunks@.len() == old.sub_chunks@.len()
        &&& forall|k: int| 0 <= k < new.sub_chunks@.len() && k != j ==> new.sub_chunks@[k] == old.sub_chunks@[k]
        &&& new.sub_chunks@[j].field_index == Some(fi as u32)
        &&& chunk_holds(new.sub_chunks@[j].content, w)
    }
}

/// Replacing a sub-chunk by one owned by the same field leaves the
/// lookup of every field's first sub-chunk unchanged.
pub proof fn lemma_entry_from_update(subs: Seq<TagSubChunkEntry>, k: int, j: int, e: TagSubChunkEntry, fi: int)
    requires
        0 <= j < subs.len(),
        e.field_index == subs[j].field_index,
        0 <= k,
    ensures
        entry_from(subs.update(j, e), k, fi) == entry_from(subs, k, fi),
    decreases subs.len() - k,
{
    if k < subs.len() {
        lemma_entry_from_update(subs, k + 1, j, e, fi);
    }
}

impl<'a> TagFieldMut<'a> {
    /// Replace the field's sub-chunk payload by `content`.
    fn put_chunk(&mut self, content: TagSubChunkContent)
        requires
            old(self).inv(),
            entry_of(old(self).struct_data.sub_chunks@, old(self).field_index as int) is Some,
            content is StringId || content is OldStringId || content is TagReference || content is ApiInterop,
            crate::data::content_ok(*old(self).layout, old(self).field_index as int, content),
        ensures
            final(self).inv(),
            final(self).layout == old(self).layout,
            final(self).raw_start == old(self).raw_start,
            final(self).field_index == old(self).field_index,
            *final(self).block_raw == *old(self).block_raw,
            final(self).struct_data.struct_index == old(self).struct_data.struct_index,
            entry_of(old(self).struct_data.sub_chunks@, old(self).field_index as int) matches Some(j) && 0 <= j
                < old(self).struct_data.sub_chunks@.len() && final(self).struct_data.sub_chunks@ == old(
                self,
            ).struct_data.sub_chunks@.update(j, (TagSubChunkEntry { field_index: Some(old(self).field_index as u32), content })),
            *final(final(self).struct_data) == *final(old(self).struct_data),
            *final(final(self).block_raw) == *final(old(self).block_raw),
    {
        let fi = self.field_index;
        proof {
            assert(self.layout.field_of_struct(self.struct_data.struct_index as int, fi as int));
        }
        let j = find_entry(&self.struct_data.sub_chunks, fi).unwrap();
        let ghost old_subs = self.struct_data.sub_chunks@;
        let entry = TagSubChunkEntry { field_index: Some(fi as u32), content };
        assert(crate::data::entry_ok(*self.layout, self.struct_data.struct_index as int, entry));
        self.struct_data.sub_chunks.set(j, entry);
        assert forall|k: int| 0 <= k < self.struct_data.sub_chunks@.len() implies crate::data::entry_ok(
            *self.layout,
            self.struct_data.struct_index as int,
            #[trigger] self.struct_data.sub_chunks@[k],
        ) by {
            if k != j {
                assert(self.struct_data.sub_chunks@[k] == old_subs[k]);
            }
        }
    }

    /// Parse `input` against the field's type and write it
    /// ([`field_write`]): integers in decimal, group tags of up to four
    /// bytes, enum values as a decimal or an option name in any ASCII
    /// case, flags as a decimal or `0x` hexadecimal mask, block indices
    /// as a decimal or `none`, strings null-padded to the field's width,
    /// string ids, tag references (`GROUP:path` or `none`) and API interop
    /// values (`reset` / `none`, or three comma-separated `u32`s) into the
    /// field's sub-chunk. Containers are refused with
    /// [`TagSetError::NotAssignable`]; every other field type, and text
    /// that means nothing for the field's type, with
    /// [`TagSetError::ParseError`], leaving the field unchanged.
    /// Floating-point fields are among those refused: this library keeps
    /// no floating-point arithmetic, so the caller reads their text as an
    /// `f32` and stores its bits with [`TagFieldMut::set_real_bits`].
    pub fn parse_and_set(&mut self, input: &str) -> (r: Result<(), TagSetError>)
        requires
            old(self).inv(),
            (field_write(*old(self).layout, old(self).field_index as int, input@) matches Ok(w) && is_chunk_write(w))
                ==> entry_of(old(self).struct_data.sub_chunks@, old(self).field_index as int) is Some,
        ensures
            final(self).inv(),
            final(self).layout == old(self).layout,
            final(self).raw_start == old(self).raw_start,
            final(self).field_index == old(self).field_index,
            *final(final(self).struct_data) == *final(old(self).struct_data),
            *final(final(self).block_raw) == *final(old(self).block_raw),
            ({
                let t = old(self).layout.fields@[old(self).field_index as int].field_type;
                let p = old(self).spec_value_pos();
                match field_write(*old(self).layout, old(self).field_index as int, input@) {
                    Ok(FieldWrite::Int(v)) => r is Ok && final(self).block_raw@ == put_int(
                        old(self).block_raw@,
                        p,
                        TagLayout::value_width(t),
                        v,
                    ) && *final(self).struct_data == *old(self).struct_data,
                    Ok(FieldWrite::Text(b)) => r is Ok && final(self).block_raw@ == put_text(
                        old(self).block_raw@,
                        p,
                        TagLayout::value_width(t),
                        b,
                    ) && *final(self).struct_data == *old(self).struct_data,
                    Ok(w) => r is Ok && *final(self).block_raw == *old(self).block_raw && chunk_replaced(
                        *old(self).struct_data,
                        *final(self).struct_data,
                        old(self).field_index as int,
                        w,
                    ),
                    Err(WriteRefusal::Unparsable) => r matches Err(TagSetError::ParseError(_))
                        && *final(self).block_raw == *old(self).block_raw && *final(self).struct_data
                        == *old(self).struct_data,
                    Err(WriteRefusal::Container) => r matches Err(TagSetError::NotAssignable)
                        && *final(self).block_raw == *old(self).block_raw && *final(self).struct_data
                        == *old(self).struct_data,
                }
            }),
            ({
                let t = old(self).layout.fields@[old(self).field_index as int].field_type;
                r is Ok && (t == TagFieldType::StringId || t == TagFieldType::OldStringId) ==> string_id_of(
                    *final(self).layout,
                    *final(self).struct_data,
                    old(self).field_index as int,
                ) == Some(input@)
            }),
            ({
                let t = old(self).layout.fields@[old(self).field_index as int].field_type;
                r is Ok && t == TagFieldType::TagReference ==> (reference_at(
                    *final(self).layout,
                    *final(self).struct_data,
                    old(self).field_index as int,
                ) matches Some(p) && reference_text_value(input@) == Some(reference_of_payload(p)))
            }),
            ({
                let t = old(self).layout.fields@[old(self).field_index as int].field_type;
                let off = old(self).layout.fields@[old(self).field_index as int].offset as int;
                r is Ok && crate::api::int_value_of(t, old(self).spec_raw(), off) is Some ==> (field_write(
                    *old(self).layout,
                    old(self).field_index as int,
                    input@,
                ) matches Ok(FieldWrite::Int(v)) && crate::api::int_value_of(t, final(self).spec_raw(), off) == Some(
                    v as i64,
                ))
            }),
    {
        let layout = self.layout;
        let fi = self.field_index;
        proof {
            assert(layout.field_of_struct(self.struct_data.struct_index as int, fi as int));
        }
        let field = layout.fields[fi];
        let total = self.block_raw.len();
        let p = self.raw_start + field.offset as usize;
        let t = field.field_type;
        let ghost w_spec = field_write(*layout, fi as int, input@);
        let (parsed, message) = match t {
            TagFieldType::CharInteger => (parse_decimal(input, i8::MIN as i64, i8::MAX as i64), "expected i8"),
            TagFieldType::ShortInteger => (parse_decimal(input, i16::MIN as i64, i16::MAX as i64), "expected i16"),
            TagFieldType::LongInteger => (parse_decimal(input, i32::MIN as i64, i32::MAX as i64), "expected i32"),
            TagFieldType::Int64Integer => (parse_decimal(input, i64::MIN, i64::MAX), "expected i64"),
            TagFieldType::Tag => (
                match parse_group_tag(input) {
                    Some(g) => Some(g as i64),
                    None => None,
                },
                "group tag must be 1..=4 ASCII chars",
            ),
            TagFieldType::CharEnum | TagFieldType::ShortEnum | TagFieldType::LongEnum => (
                parse_enum_value(layout, fi, input),
                "enum option not found",
            ),
            TagFieldType::ByteFlags | TagFieldType::WordFlags | TagFieldType::LongFlags | TagFieldType::ByteBlockFlags
            | TagFieldType::WordBlockFlags | TagFieldType::LongBlockFlags => (
                parse_int_mask(input),
                "expected integer",
            ),
            TagFieldType::CharBlockIndex | TagFieldType::CustomCharBlockIndex | TagFieldType::ShortBlockIndex
            | TagFieldType::CustomShortBlockIndex | TagFieldType::LongBlockIndex
            | TagFieldType::CustomLongBlockIndex => (parse_block_index(input), "expected integer or 'none'"),
            TagFieldType::String | TagFieldType::LongString => {
                let w = int_width(t);
                store_text(&mut *self.block_raw, p, w, input.as_bytes());
                return Ok(());
            },
            TagFieldType::StringId => {
                let bytes = string_bytes(&input.to_owned());
                let ghost old_subs = self.struct_data.sub_chunks@;
                self.put_chunk(TagSubChunkContent::StringId(bytes));
                proof {
                    let j = entry_of(old_subs, fi as int)->0;
                    crate::data::lemma_entry_from_range(old_subs, 0, fi as int);
                    lemma_entry_from_update(old_subs, 0, j, self.struct_data.sub_chunks@[j], fi as int);
                    lemma_string_id_roundtrip(input@);
                }
                return Ok(());
            },
            TagFieldType::OldStringId => {
                let bytes = string_bytes(&input.to_owned());
                let ghost old_subs = self.struct_data.sub_chunks@;
                self.put_chunk(TagSubChunkContent::OldStringId(bytes));
                proof {
                    let j = entry_of(old_subs, fi as int)->0;
                    crate::data::lemma_entry_from_range(old_subs, 0, fi as int);
                    lemma_entry_from_update(old_subs, 0, j, self.struct_data.sub_chunks@[j], fi as int);
                    lemma_string_id_roundtrip(input@);
                }
                return Ok(());
            },
            TagFieldType::TagReference => {
                match parse_tag_reference(input) {
                    Some(reference) => {
                        let bytes = reference.to_bytes();
                        let ghost old_subs = self.struct_data.sub_chunks@;
                        self.put_chunk(TagSubChunkContent::TagReference(bytes));
                        proof {
                            let j = entry_of(old_subs, fi as int)->0;
                            crate::data::lemma_entry_from_range(old_subs, 0, fi as int);
                            lemma_entry_from_update(old_subs, 0, j, self.struct_data.sub_chunks@[j], fi as int);
                            lemma_tag_reference_roundtrip(reference@);
                        }
                        return Ok(());
                    },
                    None => {
                        return Err(
                            TagSetError::ParseError(
                                "tag reference format: GROUP:path (e.g. hlmt:objects/characters/elite), or 'none'".to_owned(),
                            ),
                        );
                    },
                }
            },
            TagFieldType::ApiInterop => {
                match parse_api_interop(input) {
                    Some(bytes) => {
                        self.put_chunk(TagSubChunkContent::ApiInterop(bytes));
                        return Ok(());
                    },
                    None => {
                        return Err(
                            TagSetError::ParseError(
                                "api_interop format: 'reset', or 'descriptor,address,definition_address' (each u32, decimal or 0x hex)".to_owned(),
                            ),
                        );
                    },
                }
            },
            TagFieldType::Struct | TagFieldType::Block | TagFieldType::Array | TagFieldType::PageableResource => {
                return Err(TagSetError::NotAssignable);
            },
            TagFieldType::Data => {
                return Err(TagSetError::ParseError("parsing 'data' fields from a string is not supported".to_owned()));
            },
            TagFieldType::VertexBuffer => {
                return Err(TagSetError::ParseError("parsing vertex_buffer fields is not supported".to_owned()));
            },
            _ => {
                return Err(TagSetError::ParseError("parsing this field type from a string is not supported".to_owned()));
            },
        };
        match parsed {
            Some(v) => {
                let w = int_width(t);
                let ghost before = self.block_raw@;
                store_int(&mut *self.block_raw, p, w, v);
                proof {
                    let off = field.offset as int;
                    let size = self.spec_size();
                    let start = self.raw_start as int;
                    if crate::api::int_value_of(t, before.subrange(start, start + size), off) is Some {
                        assert(crate::api::int_value_of(t, before, p as int) is Some);
                        lemma_set_int_read_back(*layout, fi as int, input@, before, p as int);
                        let after = self.block_raw@;
                        assert(after.subrange(start, start + size).subrange(off, off + w as int) =~= after.subrange(
                            p as int,
                            p + w,
                        ));
                    }
                }
                Ok(())
            },
            None => Err(TagSetError::ParseError(message.to_owned())),
        }
    }
}

impl<'a> TagFieldMut<'a> {
    /// Store the bits of an `f32`, little-endian, as the value of a
    /// floating-point field (angle, real, real slider or real fraction).
    /// Containers are refused with [`TagSetError::NotAssignable`], every
    /// other field with [`TagSetError::TypeMismatch`] naming the field's
    /// type; a refused write leaves the field unchanged.
    pub fn set_real_bits(&mut self, bits: u32) -> (r: Result<(), TagSetError>)
        requires
            old(self).inv(),
        ensures
            final(self).inv(),
            final(self).layout == old(self).layout,
            final(self).raw_start == old(self).raw_start,
            final(self).field_index == old(self).field_index,
            *final(final(self).struct_data) == *final(old(self).struct_data),
            *final(final(self).block_raw) == *final(old(self).block_raw),
            *final(self).struct_data == *old(self).struct_data,
            ({
                let t = old(self).layout.fields@[old(self).field_index as int].field_type;
                if is_real_field(t) {
                    &&& r is Ok
                    &&& final(self).block_raw@ == put_int(old(self).block_raw@, old(self).spec_value_pos(), 4, bits as int)
                    &&& crate::api::real_bits_of(
                        t,
                        final(self).spec_raw(),
                        old(self).layout.fields@[old(self).field_index as int].offset as int,
                    ) == Some(bits)
                } else {
                    &&& *final(self).block_raw == *old(self).block_raw
                    &&& crate::data::is_container(t) ==> (r matches Err(TagSetError::NotAssignable))
                    &&& !crate::data::is_container(t) ==> (r matches Err(TagSetError::TypeMismatch { .. }))
                }
            }),
    {
        let layout = self.layout;
        let fi = self.field_index;
        proof {
            assert(layout.field_of_struct(self.struct_data.struct_index as int, fi as int));
        }
        let field = layout.fields[fi];
        let total = self.block_raw.len();
        let p = self.raw_start + field.offset as usize;
        match field.field_type {
            TagFieldType::Angle | TagFieldType::Real | TagFieldType::RealSlider | TagFieldType::RealFraction => {
                assert(p + 4 <= total);
                let ghost before = self.block_raw@;
                store_int(&mut *self.block_raw, p, 4, bits as i64);
                proof {
                    lemma_u32_bytes(bits);
                    let off = field.offset as int;
                    let start = self.raw_start as int;
                    let after = self.block_raw@;
                    let raw = after.subrange(start, start + self.spec_size());
                    assert(raw[off] == int_byte(bits as int, 0));
                    assert(raw[off + 1] == int_byte(bits as int, 1));
                    assert(raw[off + 2] == int_byte(bits as int, 2));
                    assert(raw[off + 3] == int_byte(bits as int, 3));
                }
                Ok(())
            },
            TagFieldType::Struct | TagFieldType::Block | TagFieldType::Array | TagFieldType::PageableResource => {
                Err(TagSetError::NotAssignable)
            },
            _ => {
                let expected = self.as_ref().field_type_name().to_owned();
                Err(TagSetError::TypeMismatch { expected, got: "real".to_owned() })
            },
        }
    }
}

/// The four low bytes of a `u32`, read back little-endian, give it.
proof fn lemma_u32_bytes(bits: u32)
    ensures
        (int_byte(bits as int, 0) as nat + 256 * (int_byte(bits as int, 1) as nat) + 65536 * (int_byte(bits as int, 2)
            as nat) + 16777216 * (int_byte(bits as int, 3) as nat)) as u32 == bits,
{
    let u = bits as u64;
    assert(int_byte(bits as int, 0) == ((u >> 0u64) & 0xffu64) as u8);
    assert(int_byte(bits as int, 1) == ((u >> 8u64) & 0xffu64) as u8);
    assert(int_byte(bits as int, 2) == ((u >> 16u64) & 0xffu64) as u8);
    assert(int_byte(bits as int, 3) == ((u >> 24u64) & 0xffu64) as u8);
    assert({
        let b0 = ((u >> 0u64) & 0xffu64) as u8;
        let b1 = ((u >> 8u64) & 0xffu64) as u8;
        let b2 = ((u >> 16u64) & 0xffu64) as u8;
        let b3 = ((u >> 24u64) & 0xffu64) as u8;
        (b0 as u64 + 256 * (b1 as u64) + 65536 * (b2 as u64) + 16777216 * (b3 as u64)) as u32 == bits
    }) by (bit_vector)
        requires
            u == bits as u64,
    ;
}

/// Field type `t` holds a 32-bit float inline.
pub open spec fn is_real_field(t: TagFieldType) -> bool {
    t == TagFieldType::Angle || t == TagFieldType::Real || t == TagFieldType::RealSlider || t
        == TagFieldType::RealFraction
}

//================================================================================
// Reading back
//================================================================================

/// The bytes of an integer's two's complement read back, little-endian,
/// at each integer width, give the integer when it fits that width.
proof fn lemma_int_bytes(x: i64)
    ensures
        -128 <= x <= 127 ==> (int_byte(x as int, 0) as i8) as i64 == x,
        -32768 <= x <= 32767 ==> (((int_byte(x as int, 0) as u64 + 256 * (int_byte(x as int, 1) as u64)) as u16)
            as i16) as i64 == x,
        -2147483648 <= x <= 2147483647 ==> (((int_byte(x as int, 0) as u64 + 256 * (int_byte(x as int, 1) as u64)
            + 65536 * (int_byte(x as int, 2) as u64) + 16777216 * (int_byte(x as int, 3) as u64)) as u32) as i32)
            as i64 == x,
        ((int_byte(x as int, 0) as u64 + 256 * (int_byte(x as int, 1) as u64) + 65536 * (int_byte(x as int, 2) as u64)
            + 16777216 * (int_byte(x as int, 3) as u64) + 4294967296 * (int_byte(x as int, 4) as u64) + 1099511627776
            * (int_byte(x as int, 5) as u64) + 281474976710656 * (int_byte(x as int, 6) as u64) + 72057594037927936
            * (int_byte(x as int, 7) as u64)) as u64) as i64 == x,
{
    let u = x as u64;
    assert(int_byte(x as int, 0) == ((u >> 0u64) & 0xffu64) as u8);
    assert(int_byte(x as int, 1) == ((u >> 8u64) & 0xffu64) as u8);
    assert(int_byte(x as int, 2) == ((u >> 16u64) & 0xffu64) as u8);
    assert(int_byte(x as int, 3) == ((u >> 24u64) & 0xffu64) as u8);
    assert(int_byte(x as int, 4) == ((u >> 32u64) & 0xffu64) as u8);
    assert(int_byte(x as int, 5) == ((u >> 40u64) & 0xffu64) as u8);
    assert(int_byte(x as int, 6) == ((u >> 48u64) & 0xffu64) as u8);
    assert(int_byte(x as int, 7) == ((u >> 56u64) & 0xffu64) as u8);
    assert({
        let b0 = ((u >> 0u64) & 0xffu64) as u8;
        let b1 = ((u >> 8u64) & 0xffu64) as u8;
        let b2 = ((u >> 16u64) & 0xffu64) as u8;
        let b3 = ((u >> 24u64) & 0xffu64) as u8;
        let b4 = ((u >> 32u64) & 0xffu64) as u8;
        let b5 = ((u >> 40u64) & 0xffu64) as u8;
        let b6 = ((u >> 48u64) & 0xffu64) as u8;
        let b7 = ((u >> 56u64) & 0xffu64) as u8;
        &&& -128 <= x <= 127 ==> (b0 as i8) as i64 == x
        &&& -32768 <= x <= 32767 ==> (((b0 as u64 + 256 * (b1 as u64)) as u16) as i16) as i64 == x
        &&& -2147483648 <= x <= 2147483647 ==> (((b0 as u64 + 256 * (b1 as u64) + 65536 * (b2 as u64) + 16777216
            * (b3 as u64)) as u32) as i32) as i64 == x
        &&& ((b0 as u64 + 256 * (b1 as u64) + 65536 * (b2 as u64) + 16777216 * (b3 as u64) + 4294967296 * (b4 as u64)
            + 1099511627776 * (b5 as u64) + 281474976710656 * (b6 as u64) + 72057594037927936 * (b7 as u64)) as u64)
            as i64 == x
    }) by (bit_vector)
        requires
            u == x as u64,
    ;
}

/// Setting an integer field from text and reading the field back gives
/// the integer the text denotes.
pub proof fn lemma_set_int_read_back(layout: TagLayout, fi: int, s: Seq<char>, buf: Seq<u8>, p: int)
    requires
        0 <= fi < layout.fields@.len(),
        crate::api::int_value_of(layout.fields@[fi].field_type, buf, p) is Some,
        0 <= p,
        p + TagLayout::value_width(layout.fields@[fi].field_type) <= buf.len(),
        field_write(layout, fi, s) is Ok,
    ensures
        field_write(layout, fi, s) matches Ok(FieldWrite::Int(v)) && crate::api::int_value_of(
            layout.fields@[fi].field_type,
            put_int(buf, p, TagLayout::value_width(layout.fields@[fi].field_type), v),
            p,
        ) == Some(v as i64),
{
    let t = layout.fields@[fi].field_type;
    let w = TagLayout::value_width(t);
    let v = field_write(layout, fi, s)->Ok_0->Int_0;
    assert(i64::MIN <= v <= i64::MAX);
    let x = v as i64;
    lemma_int_bytes(x);
    let nb = put_int(buf, p, w, v);
    assert(forall|k: int| 0 <= k < w ==> nb[p + k] == int_byte(v, k));
    assert(nb[p] == int_byte(x as int, 0));
    if w >= 2 {
        assert(nb[p + 1] == int_byte(x as int, 1));
        assert(le_u16(nb, p) == (int_byte(x as int, 0) as u64 + 256 * (int_byte(x as int, 1) as u64)) as u16);
    }
    if w >= 4 {
        assert(nb[p + 2] == int_byte(x as int, 2));
        assert(nb[p + 3] == int_byte(x as int, 3));
        assert(le_u32(nb, p) == (int_byte(x as int, 0) as u64 + 256 * (int_byte(x as int, 1) as u64) + 65536 * (
        int_byte(x as int, 2) as u64) + 16777216 * (int_byte(x as int, 3) as u64)) as u32);
    }
    if w >= 8 {
        assert(nb[p + 4] == int_byte(x as int, 4));
        assert(nb[p + 5] == int_byte(x as int, 5));
        assert(nb[p + 6] == int_byte(x as int, 6));
        assert(nb[p + 7] == int_byte(x as int, 7));
        assert(le_u32(nb, p + 4) == (int_byte(x as int, 4) as u64 + 256 * (int_byte(x as int, 5) as u64) + 65536 * (
        int_byte(x as int, 6) as u64) + 16777216 * (int_byte(x as int, 7) as u64)) as u32);
        assert(le_u64(nb, p) == (int_byte(x as int, 0) as u64 + 256 * (int_byte(x as int, 1) as u64) + 65536 * (
        int_byte(x as int, 2) as u64) + 16777216 * (int_byte(x as int, 3) as u64) + 4294967296 * (int_byte(
            x as int,
            4,
        ) as u64) + 1099511627776 * (int_byte(x as int, 5) as u64) + 281474976710656 * (int_byte(x as int, 6)
            as u64) + 72057594037927936 * (int_byte(x as int, 7) as u64)) as u64);
    }
}

} // verus!
