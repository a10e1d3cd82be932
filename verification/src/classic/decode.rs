//! Reading a classic tag body into the tag tree: one depth-first walk
//! driven by the layout. Every byte read lands verbatim in the tree, so
//! the unsynced image of what is read is exactly what was consumed.
use vstd::prelude::*;

use super::image::{
    block_encodable, content_encodable, content_fits, content_piece, enc_block, enc_elems, enc_fields, enc_span,
    fields_fit, lemma_entry_in_range, lemma_entry_push, lemma_fields_fit_shift, lemma_fields_span, lemma_piece_push,
    lemma_span_push, path_len, piece, piece_encodable, piece_fits, put_bytes, stored_element_size, struct_encodable,
    sync_elems, sync_fields, run_stops, trails,
};
use super::{content_counts_agree, counts_agree, engine_endian, struct_counts_agree, ClassicEngine, ClassicError};
use crate::bytes::{
    be_u16, le_u32, lemma_starts_with_split, starts_with, lemma_be_u32_bytes, lemma_le_u32_bytes, read_u16_be, read_u32, read_u32_le, spec_u32_at, u16_be_bytes,
    u32_bytes, Endian,
};
use crate::data::{entry_of, TagBlockData, TagStructData, TagSubChunkContent, TagSubChunkEntry};
use crate::fields::TagFieldType;
use crate::layout::{lemma_run_has_end, TagLayout};

verus! {

/// `ranks` orders the structs so that a struct's inline struct and
/// array fields name structs of lower rank: inline nesting is acyclic.
pub open spec fn inline_ranked(layout: TagLayout, ranks: Seq<nat>) -> bool {
    &&& ranks.len() == layout.struct_layouts@.len()
    &&& forall|s: int, i: int|
        #[trigger] layout.field_of_struct(s, i) ==> {
            &&& layout.fields@[i].field_type == TagFieldType::Struct ==> ranks[layout.fields@[i].definition as int]
                < ranks[s]
            &&& layout.fields@[i].field_type == TagFieldType::Array
                ==> ranks[layout.array_layouts@[layout.fields@[i].definition as int].struct_index as int] < ranks[s]
        }
}

/// A layout the classic walk can follow: well formed, with acyclic
/// inline nesting.
pub open spec fn classic_layout(layout: TagLayout) -> bool {
    layout.wf() && exists|ranks: Seq<nat>| inline_ranked(layout, ranks)
}

//================================================================================
// What reads back
//================================================================================

/// The payload `c` of field `fi` of a struct whose fixed bytes are `raw`
/// reads back: the field's slot in `raw` holds what the encoder writes
/// there (a blob's size, a block's element count, a string id's length,
/// a tag reference's path length, which is zero for a payload with no
/// path and otherwise follows a non-null group), and what is nested
/// reads back in turn.
pub open spec fn content_decodable(layout: TagLayout, raw: Seq<u8>, fi: int, c: TagSubChunkContent, engine: ClassicEngine) -> bool
    decreases c, 0int,
{
    let f = layout.fields@[fi];
    let off = f.offset as int;
    let e = engine_endian(engine);
    match c {
        TagSubChunkContent::Block(b) => {
            &&& f.field_type == TagFieldType::Block
            &&& spec_u32_at(raw, off, e) == b.elements@.len()
            &&& block_decodable(layout, b, layout.block_layouts@[f.definition as int].struct_index, engine)
        },
        TagSubChunkContent::Data(p) => f.field_type == TagFieldType::Data && spec_u32_at(raw, off, e) == p@.len(),
        TagSubChunkContent::TagReference(p) => {
            &&& f.field_type == TagFieldType::TagReference
            &&& {
                ||| p@.len() == 4 && spec_u32_at(raw, off + 8, e) == 0
                ||| p@.len() >= 6 && spec_u32_at(raw, off, e) != 0xFFFF_FFFF && spec_u32_at(raw, off + 8, e)
                    == p@.len() - 5
            }
        },
        TagSubChunkContent::StringId(t) => f.field_type == TagFieldType::StringId && be_u16(raw, off + 2) == t@.len(),
        TagSubChunkContent::Struct(child) => {
            &&& f.field_type == TagFieldType::Struct
            &&& child.struct_index == f.definition
            &&& fields_decodable(
                layout,
                raw.subrange(off, off + layout.struct_layouts@[f.definition as int].size),
                child,
                engine,
            )
        },
        TagSubChunkContent::Array(els) => {
            let a = layout.array_layouts@[f.definition as int];
            let es = layout.struct_layouts@[a.struct_index as int].size as int;
            &&& f.field_type == TagFieldType::Array
            &&& els@.len() == a.count
            &&& forall|k: int|
                0 <= k < els@.len() ==> {
                    &&& (#[trigger] els@[k]).struct_index == a.struct_index
                    &&& fields_decodable(layout, raw.subrange(off + k * es, off + (k + 1) * es), els@[k], engine)
                }
        },
        _ => false,
    }
}

/// Field `g` of `d` (fixed bytes `raw`) reads back: when it carries
/// trailing data, its slot lies inside `raw` and its sub-chunk is
/// there and reads back.
pub open spec fn field_decodable(layout: TagLayout, raw: Seq<u8>, d: TagStructData, g: int, engine: ClassicEngine) -> bool
    decreases d, 0int,
{
    trails(layout.fields@[g].field_type) ==> {
        &&& slot_end(layout, g) <= raw.len()
        &&& entry_of(d.sub_chunks@, g) matches Some(j) && 0 <= j < d.sub_chunks@.len() && content_decodable(
            layout,
            raw,
            g,
            d.sub_chunks@[j].content,
            engine,
        )
    }
}

/// Every field of `d` (fixed bytes `raw`) reads back.
pub open spec fn fields_decodable(layout: TagLayout, raw: Seq<u8>, d: TagStructData, engine: ClassicEngine) -> bool
    decreases d, 1int,
{
    &&& d.struct_index < layout.struct_layouts@.len()
    &&& forall|g: int|
        #![trigger layout.field_of_struct(d.struct_index as int, g)]
        layout.field_of_struct(d.struct_index as int, g) ==> field_decodable(layout, raw, d, g, engine)
}

/// The elements of `b` are instances of struct `si` whose records, `es`
/// bytes each, make up the block's bytes, and each reads back against
/// its record.
pub open spec fn records_fit(layout: TagLayout, b: TagBlockData, si: u32, es: int, engine: ClassicEngine) -> bool
    decreases b, 1int,
{
    &&& b.raw_data@.len() == b.elements@.len() * es
    &&& forall|k: int|
        0 <= k < b.elements@.len() ==> {
            &&& (#[trigger] b.elements@[k]).struct_index == si
            &&& fields_decodable(layout, b.raw_data@.subrange(k * es, (k + 1) * es), b.elements@[k], engine)
        }
}

/// Bytes per element of `b` as the engine reads them: the struct's size
/// for CE, the size word of the Halo 2 block header.
pub open spec fn record_stride(layout: TagLayout, b: TagBlockData, si: u32, engine: ClassicEngine) -> int {
    match engine {
        ClassicEngine::HaloCe => layout.struct_layouts@[si as int].size as int,
        ClassicEngine::Halo2 => match b.classic_block_header {
            Some(h) => le_u32(h@, 12) as int,
            None => 0,
        },
    }
}

/// The records of `b` with the header its engine puts before them: none
/// for CE, for Halo 2 a 16-byte header whose count is the element count.
pub open spec fn records_decodable(layout: TagLayout, b: TagBlockData, si: u32, engine: ClassicEngine) -> bool
    decreases b, 2int,
{
    &&& match engine {
        ClassicEngine::HaloCe => b.classic_block_header is None,
        ClassicEngine::Halo2 => b.classic_block_header matches Some(h) && h@.len() == 16 && le_u32(h@, 8)
            == b.elements@.len(),
    }
    &&& records_fit(layout, b, si, record_stride(layout, b, si, engine), engine)
}

/// A nested block of struct `si` reads back: an empty block is stored as
/// nothing at all, a non-empty one as its records.
pub open spec fn block_decodable(layout: TagLayout, b: TagBlockData, si: u32, engine: ClassicEngine) -> bool
    decreases b, 3int,
{
    if b.elements@.len() == 0 {
        b.classic_block_header is None && b.raw_data@.len() == 0
    } else {
        records_decodable(layout, b, si, engine)
    }
}

/// The root block of a tag reads back: its records (for CE exactly one
/// element, the tag's root struct).
pub open spec fn root_decodable(layout: TagLayout, root: TagBlockData, engine: ClassicEngine) -> bool {
    let si = layout.block_layouts@[layout.header.tag_group_block_index as int].struct_index;
    &&& records_decodable(layout, root, si, engine)
    &&& engine == ClassicEngine::HaloCe ==> root.elements@.len() == 1
}

/// The payload of an array field of `w`, or nothing.
pub open spec fn array_at(w: TagStructData, fi: int) -> Seq<TagStructData> {
    match entry_of(w.sub_chunks@, fi) {
        Some(j) => match w.sub_chunks@[j].content {
            TagSubChunkContent::Array(els) => els@,
            _ => Seq::empty(),
        },
        None => Seq::empty(),
    }
}

/// A span splits at any field between its ends.
proof fn lemma_span_split(layout: TagLayout, d: TagStructData, a: int, m: int, b: int)
    requires
        a <= m <= b,
    ensures
        enc_span(layout, d, a, b, false) == enc_span(layout, d, a, m, false) + enc_span(layout, d, m, b, false),
    decreases b - m,
{
    if m < b {
        lemma_span_split(layout, d, a, m, b - 1);
        assert(enc_span(layout, d, a, b, false) =~= enc_span(layout, d, a, m, false) + enc_span(layout, d, m, b, false));
    } else {
        assert(enc_span(layout, d, m, b, false) =~= Seq::<u8>::empty());
        assert(enc_span(layout, d, a, b, false) =~= enc_span(layout, d, a, m, false) + enc_span(layout, d, m, b, false));
    }
}

/// The trailing bytes of elements `0..n` start with those of `0..m`,
/// followed by those of element `m`.
proof fn lemma_starts_with_elems(layout: TagLayout, body: Seq<u8>, pos: int, els: Seq<TagStructData>, m: int, n: int)
    requires
        0 <= m < n <= els.len(),
        starts_with(body, pos, enc_elems(layout, els, n, false)),
    ensures
        starts_with(body, pos, enc_elems(layout, els, m, false)),
        starts_with(
            body,
            pos + enc_elems(layout, els, m, false).len(),
            enc_fields(layout, els[m], layout.struct_layouts@[els[m].struct_index as int].first_field_index as int, false),
        ),
    decreases n - m,
{
    lemma_starts_with_split(
        body,
        pos,
        enc_elems(layout, els, n - 1, false),
        enc_fields(layout, els[n - 1], layout.struct_layouts@[els[n - 1].struct_index as int].first_field_index as int, false),
    );
    if m + 1 < n {
        lemma_starts_with_elems(layout, body, pos, els, m, n - 1);
    }
}

/// The trailing bytes of a struct's fields from `a` are the span up to
/// any field `m` of the run, then those from `m`.
proof fn lemma_fields_prefix(layout: TagLayout, d: TagStructData, a: int, m: int)
    requires
        0 <= a <= m <= layout.fields@.len(),
        layout.no_terminator_between(a, m),
    ensures
        enc_fields(layout, d, a, false) == enc_span(layout, d, a, m, false) + enc_fields(layout, d, m, false),
    decreases m - a,
{
    if a < m {
        lemma_fields_prefix(layout, d, a + 1, m);
        lemma_span_front_pub(layout, d, a, m);
        assert(layout.fields@[a].field_type != TagFieldType::Terminator);
        assert(enc_fields(layout, d, a, false) =~= enc_span(layout, d, a, m, false) + enc_fields(layout, d, m, false));
    } else {
        assert(enc_span(layout, d, a, m, false) =~= Seq::<u8>::empty());
        assert(enc_fields(layout, d, a, false) =~= enc_span(layout, d, a, m, false) + enc_fields(layout, d, m, false));
    }
}

/// Field `fi` of `w` lies where the span before it ends.
proof fn lemma_piece_at(layout: TagLayout, body: Seq<u8>, pos: int, w: TagStructData, first: int, fi: int)
    requires
        0 <= first <= fi < layout.fields@.len(),
        layout.fields@[fi].field_type != TagFieldType::Terminator,
        layout.no_terminator_between(first, fi),
        starts_with(body, pos, enc_fields(layout, w, first, false)),
    ensures
        starts_with(body, pos + enc_span(layout, w, first, fi, false).len(), piece(layout, w, fi, false)),
{
    lemma_fields_prefix(layout, w, first, fi);
    lemma_starts_with_split(body, pos, enc_span(layout, w, first, fi, false), enc_fields(layout, w, fi, false));
    lemma_starts_with_split(
        body,
        pos + enc_span(layout, w, first, fi, false).len(),
        piece(layout, w, fi, false),
        enc_fields(layout, w, fi + 1, false),
    );
}

/// A span starts with its first field.
proof fn lemma_span_front_pub(layout: TagLayout, d: TagStructData, a: int, b: int)
    requires
        a < b,
    ensures
        enc_span(layout, d, a, b, false) == piece(layout, d, a, false) + enc_span(layout, d, a + 1, b, false),
{
    lemma_span_split(layout, d, a, a + 1, b);
    assert(enc_span(layout, d, a, a, false) =~= Seq::<u8>::empty());
    assert(enc_span(layout, d, a, a + 1, false) =~= piece(layout, d, a, false));
}

//================================================================================
// Slots that agree with what was read
//================================================================================

/// The slots of payload `c` of field `fi` in `raw` hold what the encoder
/// writes there (its length, element count, group and path length), and
/// so do those of everything nested; a nested block's counts agree too
/// (see [`counts_agree`]).
pub open spec fn content_agrees(layout: TagLayout, raw: Seq<u8>, fi: int, c: TagSubChunkContent, e: Endian) -> bool
    decreases c, 0int,
{
    let f = layout.fields@[fi];
    let off = f.offset as int;
    match c {
        TagSubChunkContent::Block(b) => raw.subrange(off, off + 4) == u32_bytes(b.elements@.len() as u32, e)
            && counts_agree(layout, b),
        TagSubChunkContent::Data(p) => raw.subrange(off, off + 4) == u32_bytes(p@.len() as u32, e),
        TagSubChunkContent::TagReference(p) => {
            &&& p@.len() >= 4 ==> raw.subrange(off, off + 4) == p@.subrange(0, 4)
            &&& raw.subrange(off + 8, off + 12) == u32_bytes(path_len(p@) as u32, e)
        },
        TagSubChunkContent::StringId(t) => raw.subrange(off + 2, off + 4) == u16_be_bytes(t@.len() as u16),
        TagSubChunkContent::Struct(child) => fields_agree(
            layout,
            raw.subrange(off, off + layout.struct_layouts@[child.struct_index as int].size),
            child,
            e,
        ),
        TagSubChunkContent::Array(els) => {
            let es = layout.array_element_size(f.definition as int);
            forall|k: int|
                0 <= k < els@.len() ==> fields_agree(
                    layout,
                    raw.subrange(off + k * es, off + (k + 1) * es),
                    #[trigger] els@[k],
                    e,
                )
        },
        _ => true,
    }
}

/// The slots of every field of `d` in `raw` agree (see
/// [`content_agrees`]).
pub open spec fn fields_agree(layout: TagLayout, raw: Seq<u8>, d: TagStructData, e: Endian) -> bool
    decreases d, 1int,
{
    &&& d.struct_index < layout.struct_layouts@.len()
    &&& forall|g: int|
        #![trigger layout.field_of_struct(d.struct_index as int, g)]
        layout.field_of_struct(d.struct_index as int, g) ==> match entry_of(d.sub_chunks@, g) {
            Some(j) => 0 <= j < d.sub_chunks@.len() ==> content_agrees(layout, raw, g, d.sub_chunks@[j].content, e),
            None => true,
        }
}

/// The slots of the fields of `d` before field `n` agree.
pub open spec fn fields_agree_below(layout: TagLayout, raw: Seq<u8>, d: TagStructData, n: int, e: Endian) -> bool {
    forall|g: int|
        #![trigger layout.field_of_struct(d.struct_index as int, g)]
        layout.field_of_struct(d.struct_index as int, g) && g < n ==> match entry_of(d.sub_chunks@, g) {
            Some(j) => 0 <= j < d.sub_chunks@.len() ==> content_agrees(layout, raw, g, d.sub_chunks@[j].content, e),
            None => true,
        }
}

/// Writing back the bytes already there changes nothing.
pub(crate) proof fn lemma_put_same(r: Seq<u8>, at: int, k: int)
    requires
        0 <= at,
        0 <= k,
        at + k <= r.len(),
    ensures
        put_bytes(r, at, r.subrange(at, at + k)) == r,
{
    assert(put_bytes(r, at, r.subrange(at, at + k)) =~= r);
}

/// The bytes of the `u32` stored at `at` are the bytes there.
pub(crate) proof fn lemma_u32_at_bytes(b: Seq<u8>, at: int, e: Endian)
    requires
        0 <= at,
        at + 4 <= b.len(),
    ensures
        u32_bytes(spec_u32_at(b, at, e), e) == b.subrange(at, at + 4),
{
    match e {
        Endian::Le => lemma_le_u32_bytes(b, at),
        Endian::Be => lemma_be_u32_bytes(b, at),
    }
}

/// The bytes of the big-endian `u16` stored at `at` are the bytes there.
proof fn lemma_be_u16_bytes(b: Seq<u8>, at: int)
    requires
        0 <= at,
        at + 2 <= b.len(),
    ensures
        u16_be_bytes(be_u16(b, at)) == b.subrange(at, at + 2),
{
    let hi = b[at];
    let lo = b[at + 1];
    let v = be_u16(b, at);
    assert(v == 256 * (hi as int) + lo as int);
    assert(v / 256 == hi as int && v % 256 == lo as int) by (nonlinear_arith)
        requires
            v == 256 * (hi as int) + lo as int,
            0 <= lo < 256,
            0 <= hi < 256,
    ;
    assert(u16_be_bytes(v) =~= b.subrange(at, at + 2));
}

/// Agreeing slots make every nested block's counts agree.
pub(crate) proof fn lemma_agree_counts(layout: TagLayout, raw: Seq<u8>, d: TagStructData, e: Endian)
    requires
        fields_agree(layout, raw, d, e),
    ensures
        struct_counts_agree(layout, d),
    decreases d, 1int,
{
    assert forall|g: int|
        #![trigger layout.field_of_struct(d.struct_index as int, g)]
        layout.field_of_struct(d.struct_index as int, g) implies match entry_of(d.sub_chunks@, g) {
            Some(j) => 0 <= j < d.sub_chunks@.len() ==> content_counts_agree(layout, d.sub_chunks@[j].content),
            None => true,
        } by {
        if let Some(j) = entry_of(d.sub_chunks@, g) {
            if 0 <= j < d.sub_chunks@.len() {
                lemma_content_agree_counts(layout, raw, g, d.sub_chunks@[j].content, e);
            }
        }
    }
}

proof fn lemma_content_agree_counts(layout: TagLayout, raw: Seq<u8>, fi: int, c: TagSubChunkContent, e: Endian)
    requires
        content_agrees(layout, raw, fi, c, e),
    ensures
        content_counts_agree(layout, c),
    decreases c, 0int,
{
    let f = layout.fields@[fi];
    let off = f.offset as int;
    match c {
        TagSubChunkContent::Struct(child) => {
            lemma_agree_counts(
                layout,
                raw.subrange(off, off + layout.struct_layouts@[child.struct_index as int].size),
                child,
                e,
            );
        },
        TagSubChunkContent::Array(els) => {
            let es = layout.array_element_size(f.definition as int);
            assert forall|k: int| 0 <= k < els@.len() implies struct_counts_agree(layout, #[trigger] els@[k]) by {
                lemma_agree_counts(layout, raw.subrange(off + k * es, off + (k + 1) * es), els@[k], e);
            }
        },
        _ => {},
    }
}

/// Syncing the slots of fields `fi..` of `d`, whose record is
/// `big[c..c + len]`, changes nothing when they agree.
pub(crate) proof fn lemma_sync_fields_fixed(
    layout: TagLayout,
    big: Seq<u8>,
    c: int,
    len: int,
    d: TagStructData,
    fi: int,
    e: Endian,
)
    requires
        0 <= c,
        0 <= len,
        c + len <= big.len(),
        fields_agree(layout, big.subrange(c, c + len), d, e),
        fields_fit(layout, 0, d, len),
        layout.first_field(d.struct_index as int) <= fi,
        layout.no_terminator_between(layout.first_field(d.struct_index as int), fi),
    ensures
        sync_fields(layout, big, c, d, fi, e) == big,
    decreases d, layout.fields@.len() - fi,
{
    if !run_stops(layout, fi) {
        let s = d.struct_index as int;
        assert(layout.field_of_struct(s, fi));
        let sub = big.subrange(c, c + len);
        let f = layout.fields@[fi];
        let fo = f.offset as int;
        let off = c + fo;
        if let Some(j) = entry_of(d.sub_chunks@, fi) {
            if 0 <= j < d.sub_chunks@.len() {
                assert(piece_fits(layout, 0, d, fi, len));
                assert(content_agrees(layout, sub, fi, d.sub_chunks@[j].content, e));
                match (f.field_type, d.sub_chunks@[j].content) {
                    (TagFieldType::Block, TagSubChunkContent::Block(b)) => {
                        assert(big.subrange(off, off + 4) =~= sub.subrange(fo, fo + 4));
                        lemma_put_same(big, off, 4);
                    },
                    (TagFieldType::Data, TagSubChunkContent::Data(p)) => {
                        assert(big.subrange(off, off + 4) =~= sub.subrange(fo, fo + 4));
                        lemma_put_same(big, off, 4);
                    },
                    (TagFieldType::TagReference, TagSubChunkContent::TagReference(p)) => {
                        assert(big.subrange(off, off + 4) =~= sub.subrange(fo, fo + 4));
                        assert(big.subrange(off + 8, off + 12) =~= sub.subrange(fo + 8, fo + 12));
                        lemma_put_same(big, off, 4);
                        lemma_put_same(big, off + 8, 4);
                    },
                    (TagFieldType::StringId, TagSubChunkContent::StringId(t)) => {
                        assert(big.subrange(off + 2, off + 4) =~= sub.subrange(fo + 2, fo + 4));
                        lemma_put_same(big, off + 2, 2);
                    },
                    (TagFieldType::Struct, TagSubChunkContent::Struct(child)) => {
                        let size = layout.struct_layouts@[child.struct_index as int].size as int;
                        lemma_fields_fit_shift(layout, fo, child, fo + size, -fo);
                        assert(big.subrange(off, off + size) =~= sub.subrange(fo, fo + size));
                        lemma_sync_fields_fixed(
                            layout,
                            big,
                            off,
                            size,
                            child,
                            layout.struct_layouts@[child.struct_index as int].first_field_index as int,
                            e,
                        );
                    },
                    (TagFieldType::Array, TagSubChunkContent::Array(els)) => {
                        let es = layout.array_element_size(f.definition as int);
                        assert(content_fits(layout, 0 + fo, f.field_type, f.definition, d.sub_chunks@[j].content, len));
                        assert(fo + els@.len() * es <= len);
                        assert forall|k: int| 0 <= k < els@.len() implies {
                            &&& fields_agree(
                                layout,
                                big.subrange(off + k * es, off + (k + 1) * es),
                                #[trigger] els@[k],
                                e,
                            )
                            &&& fields_fit(layout, 0, els@[k], es)
                        } by {
                            assert(0 <= k * es && (k + 1) * es <= els@.len() * es) by (nonlinear_arith)
                                requires
                                    0 <= k < els@.len(),
                                    es >= 0,
                            ;
                            assert((k + 1) * es == k * es + es) by (nonlinear_arith);
                            assert(big.subrange(off + k * es, off + (k + 1) * es) =~= sub.subrange(
                                fo + k * es,
                                fo + (k + 1) * es,
                            ));
                            lemma_fields_fit_shift(layout, fo + k * es, els@[k], fo + (k + 1) * es, -(fo + k * es));
                            assert(fo + (k + 1) * es - (fo + k * es) == es) by (nonlinear_arith);
                        }
                        lemma_sync_elems_fixed(layout, big, off, els@, es, els@.len() as int, e);
                    },
                    _ => {},
                }
            }
        }
        lemma_sync_fields_fixed(layout, big, c, len, d, fi + 1, e);
    }
}

/// Syncing elements `0..n` of `els`, element `k` at `base + k * es`,
/// changes nothing when each element's slots agree with its record.
pub(crate) proof fn lemma_sync_elems_fixed(
    layout: TagLayout,
    big: Seq<u8>,
    base: int,
    els: Seq<TagStructData>,
    es: int,
    n: int,
    e: Endian,
)
    requires
        0 <= base,
        0 <= es,
        n <= els.len(),
        base + n * es <= big.len(),
        forall|k: int|
            0 <= k < n ==> {
                &&& fields_agree(layout, big.subrange(base + k * es, base + (k + 1) * es), #[trigger] els[k], e)
                &&& fields_fit(layout, 0, els[k], es)
            },
    ensures
        sync_elems(layout, big, base, els, es, n, e) == big,
    decreases els, n,
{
    if n > 0 && n <= els.len() {
        assert(base + (n - 1) * es <= base + n * es) by (nonlinear_arith)
            requires
                es >= 0,
        ;
        lemma_sync_elems_fixed(layout, big, base, els, es, n - 1, e);
        assert(base + (n - 1) * es + es <= base + n * es) by (nonlinear_arith)
            requires
                es >= 0,
        ;
        assert(base + (n - 1) * es >= 0) by (nonlinear_arith)
            requires
                es >= 0,
                n >= 1,
                base >= 0,
        ;
        assert(base + (n - 1 + 1) * es == base + (n - 1) * es + es) by (nonlinear_arith);
        lemma_sync_fields_fixed(
            layout,
            big,
            base + (n - 1) * es,
            es,
            els[n - 1],
            layout.struct_layouts@[els[n - 1].struct_index as int].first_field_index as int,
            e,
        );
    }
}

//================================================================================
// Checking a layout
//================================================================================

/// The inline child of field `i` (a nested struct, or an array's
/// element struct), if any, is ranked below `r`.
pub open spec fn child_ranked_below(layout: TagLayout, ranked: Seq<bool>, rank: Seq<u64>, i: int, r: int) -> bool {
    &&& layout.fields@[i].field_type == TagFieldType::Struct ==> ranked[layout.fields@[i].definition as int]
        && rank[layout.fields@[i].definition as int] < r
    &&& layout.fields@[i].field_type == TagFieldType::Array ==> ranked[layout.array_layouts@[layout.fields@[i].definition as int].struct_index as int]
        && rank[layout.array_layouts@[layout.fields@[i].definition as int].struct_index as int] < r
}

/// Struct `s` has an inline child not ranked before round `round`.
pub open spec fn has_unready_child(layout: TagLayout, ranked: Seq<bool>, rank: Seq<u64>, s: int, round: u64) -> bool {
    exists|i: int| #[trigger] layout.field_of_struct(s, i) && !child_ranked_below(layout, ranked, rank, i, round as int)
}

/// How many of the first `k` structs are unranked.
pub open spec fn unranked(ranked: Seq<bool>, k: int) -> nat
    decreases k,
{
    if k <= 0 {
        0
    } else {
        unranked(ranked, k - 1) + if ranked[k - 1] {
            0nat
        } else {
            1nat
        }
    }
}

proof fn lemma_unranked_all(ranked: Seq<bool>, k: int)
    requires
        0 <= k <= ranked.len(),
        forall|j: int| 0 <= j < k ==> !(#[trigger] ranked[j]),
    ensures
        unranked(ranked, k) == k,
    decreases k,
{
    if k > 0 {
        lemma_unranked_all(ranked, k - 1);
    }
}

proof fn lemma_unranked_set(ranked: Seq<bool>, k: int, s: int)
    requires
        0 <= s < k <= ranked.len(),
        !ranked[s],
    ensures
        unranked(ranked.update(s, true), k) + 1 == unranked(ranked, k),
    decreases k,
{
    if k - 1 > s {
        lemma_unranked_set(ranked, k - 1, s);
    } else {
        lemma_unranked_same(ranked, ranked.update(s, true), s);
    }
}

proof fn lemma_unranked_same(a: Seq<bool>, b: Seq<bool>, k: int)
    requires
        0 <= k <= a.len(),
        k <= b.len(),
        forall|j: int| 0 <= j < k ==> a[j] == b[j],
    ensures
        unranked(a, k) == unranked(b, k),
    decreases k,
{
    if k > 0 {
        lemma_unranked_same(a, b, k - 1);
    }
}

proof fn lemma_some_unranked(ranked: Seq<bool>, k: int)
    requires
        0 <= k <= ranked.len(),
        unranked(ranked, k) > 0,
    ensures
        exists|u: int| 0 <= u < k && !ranked[u],
    decreases k,
{
    if k > 0 && ranked[k - 1] {
        lemma_some_unranked(ranked, k - 1);
    }
}

proof fn lemma_unranked_none(ranked: Seq<bool>, k: int)
    requires
        0 <= k <= ranked.len(),
        unranked(ranked, k) == 0,
    ensures
        forall|j: int| 0 <= j < k ==> #[trigger] ranked[j],
    decreases k,
{
    if k > 0 {
        lemma_unranked_none(ranked, k - 1);
    }
}

/// When every unranked struct has an unranked inline child, a ranking
/// would have to descend below zero: every unranked struct ranks at least
/// `m` for every `m`.
proof fn lemma_no_bottom(
    layout: TagLayout,
    ranked: Seq<bool>,
    rank: Seq<u64>,
    round: u64,
    rk: Seq<nat>,
    u: int,
    m: int,
)
    requires
        layout.wf(),
        inline_ranked(layout, rk),
        ranked.len() == layout.struct_layouts@.len(),
        rank.len() == layout.struct_layouts@.len(),
        0 <= u < layout.struct_layouts@.len(),
        !ranked[u],
        forall|j: int| 0 <= j < ranked.len() && #[trigger] ranked[j] ==> rank[j] < round,
        forall|j: int|
            0 <= j < ranked.len() && !(#[trigger] ranked[j]) ==> has_unready_child(layout, ranked, rank, j, round),
        0 <= m,
    ensures
        rk[u] >= m,
    decreases m,
{
    if m > 0 {
        assert(has_unready_child(layout, ranked, rank, u, round));
        let i = choose|i: int|
            #[trigger] layout.field_of_struct(u, i) && !child_ranked_below(layout, ranked, rank, i, round as int);
        assert(layout.field_refs_valid(i));
        let f = layout.fields@[i];
        if f.field_type == TagFieldType::Struct {
            let c = f.definition as int;
            lemma_no_bottom(layout, ranked, rank, round, rk, c, m - 1);
        } else {
            let c = layout.array_layouts@[f.definition as int].struct_index as int;
            lemma_no_bottom(layout, ranked, rank, round, rk, c, m - 1);
        }
    }
}

/// Whether every inline child of struct `s` was ranked before round
/// `round`.
fn children_ready(layout: &TagLayout, s: usize, ranked: &Vec<bool>, rank: &Vec<u64>, round: u64) -> (r: bool)
    requires
        layout.wf(),
        s < layout.struct_layouts@.len(),
        ranked@.len() == layout.struct_layouts@.len(),
        rank@.len() == layout.struct_layouts@.len(),
    ensures
        r == !has_unready_child(*layout, ranked@, rank@, s as int, round),
{
    let first = layout.struct_layouts[s].first_field_index as usize;
    let ghost t = lemma_run_has_end(layout, s as int, first as int);
    let mut i = first;
    while layout.fields[i].field_type != TagFieldType::Terminator
        invariant
            layout.wf(),
            s < layout.struct_layouts@.len(),
            ranked@.len() == layout.struct_layouts@.len(),
            rank@.len() == layout.struct_layouts@.len(),
            first == layout.first_field(s as int),
            first <= i <= t < layout.fields@.len(),
            layout.fields@[t].field_type == TagFieldType::Terminator,
            layout.no_terminator_between(first as int, i as int),
            forall|g: int|
                #![trigger layout.field_of_struct(s as int, g)]
                layout.field_of_struct(s as int, g) && g < i ==> child_ranked_below(*layout, ranked@, rank@, g, round as int),
        decreases t - i,
    {
        proof {
            assert(layout.field_of_struct(s as int, i as int));
            assert(layout.field_refs_valid(i as int));
        }
        if let Some(c) = inline_child(layout, i) {
            if !ranked[c] || rank[c] >= round {
                assert(!child_ranked_below(*layout, ranked@, rank@, i as int, round as int));
                return false;
            }
        }
        i = i + 1;
    }
    proof {
        assert forall|g: int| #[trigger] layout.field_of_struct(s as int, g) implies child_ranked_below(
            *layout,
            ranked@,
            rank@,
            g,
            round as int,
        ) by {
            if g >= i {
                assert(layout.fields@[i as int].field_type != TagFieldType::Terminator);
            }
        }
    }
    true
}

/// The rank a field's inline nested struct needs its struct to exceed,
/// and whether it has one.
fn inline_child(layout: &TagLayout, i: usize) -> (r: Option<usize>)
    requires
        i < layout.fields@.len(),
        layout.fields@[i as int].field_type == TagFieldType::Struct ==> layout.fields@[i as int].definition
            < layout.struct_layouts@.len(),
        layout.fields@[i as int].field_type == TagFieldType::Array ==> layout.fields@[i as int].definition
            < layout.array_layouts@.len(),
    ensures
        match layout.fields@[i as int].field_type {
            TagFieldType::Struct => r == Some(layout.fields@[i as int].definition as usize),
            TagFieldType::Array => r == Some(
                layout.array_layouts@[layout.fields@[i as int].definition as int].struct_index as usize,
            ),
            _ => r is None,
        },
{
    match layout.fields[i].field_type {
        TagFieldType::Struct => Some(layout.fields[i].definition as usize),
        TagFieldType::Array => Some(layout.array_layouts[layout.fields[i].definition as usize].struct_index as usize),
        _ => None,
    }
}

/// Field `i`'s references are in range and its inline bytes fit struct
/// `s` ([`TagLayout::field_refs_valid`] and the extent bound of
/// [`TagLayout::wf`]).
fn field_fits(layout: &TagLayout, s: usize, i: usize) -> (r: bool)
    requires
        s < layout.struct_layouts@.len(),
        i < layout.fields@.len(),
        forall|a: int|
            0 <= a < layout.array_layouts@.len() ==> (#[trigger] layout.array_layouts@[a]).struct_index
                < layout.struct_layouts@.len(),
    ensures
        r == (layout.field_refs_valid(i as int) && layout.fields@[i as int].offset + layout.field_extent(i as int)
            <= layout.struct_layouts@[s as int].size),
{
    let f = &layout.fields[i];
    let ti = f.type_index as usize;
    if ti >= layout.field_types.len() {
        return false;
    }
    if crate::assign::int_width(f.field_type) > layout.field_types[ti].size as usize {
        return false;
    }
    let def = f.definition as usize;
    let extent: u128 = match f.field_type {
        TagFieldType::Struct => {
            if def >= layout.struct_layouts.len() {
                return false;
            }
            layout.struct_layouts[def].size as u128
        },
        TagFieldType::Block => {
            if def >= layout.block_layouts.len() {
                return false;
            }
            layout.field_types[ti].size as u128
        },
        TagFieldType::Array => {
            if def >= layout.array_layouts.len() {
                return false;
            }
            let asi = layout.array_layouts[def].struct_index as usize;
            let es = layout.struct_layouts[asi].size as u128;
            let count = layout.array_layouts[def].count as u128;
            assert(es * count <= 0xFFFF_FFFF_FFFF_FFFFu128 * 0xFFFF_FFFFu128) by (nonlinear_arith)
                requires
                    es <= 0xFFFF_FFFF_FFFF_FFFFu128,
                    count <= 0xFFFF_FFFFu128,
            ;
            es * count
        },
        TagFieldType::PageableResource => {
            if def >= layout.resource_layouts.len() {
                return false;
            }
            layout.field_types[ti].size as u128
        },
        TagFieldType::Terminator => 0,
        _ => layout.field_types[ti].size as u128,
    };
    (f.offset as u128) + extent <= layout.struct_layouts[s].size as u128
}

impl TagLayout {
    /// Check at run time that the layout can be walked by the readers of
    /// this crate ([`classic_layout`]): its tables are well formed
    /// ([`TagLayout::wf`]) and inline nesting is acyclic. Ranks are handed
    /// out round by round to the structs whose inline children all ranked
    /// in earlier rounds; when a round hands out none, every struct left
    /// has an unranked inline child, and no ranking can exist.
    pub fn check(&self) -> (r: bool)
        ensures
            r == classic_layout(*self),
    {
        let n = self.struct_layouts.len();
        if n > u32::MAX as usize || self.block_layouts.len() > u32::MAX as usize || self.fields.len() > u32::MAX as usize {
            return false;
        }
        if self.header.tag_group_block_index as usize >= self.block_layouts.len() {
            return false;
        }
        let mut b: usize = 0;
        while b < self.block_layouts.len()
            invariant
                n == self.struct_layouts@.len(),
                forall|k: int|
                    0 <= k < b ==> {
                        &&& (#[trigger] self.block_layouts@[k]).index == k
                        &&& self.block_layouts@[k].struct_index < self.struct_layouts@.len()
                    },
            decreases self.block_layouts@.len() - b,
        {
            if self.block_layouts[b].index as usize != b || self.block_layouts[b].struct_index as usize >= n {
                assert(!self.wf()) by {
                    assert(self.block_layouts@[b as int] == self.block_layouts@[b as int]);
                }
                return false;
            }
            b = b + 1;
        }
        let mut a: usize = 0;
        while a < self.array_layouts.len()
            invariant
                n == self.struct_layouts@.len(),
                forall|k: int| 0 <= k < a ==> (#[trigger] self.array_layouts@[k]).struct_index < self.struct_layouts@.len(),
            decreases self.array_layouts@.len() - a,
        {
            if self.array_layouts[a].struct_index as usize >= n {
                assert(!self.wf()) by {
                    assert(self.array_layouts@[a as int] == self.array_layouts@[a as int]);
                }
                return false;
            }
            a = a + 1;
        }
        let mut q: usize = 0;
        while q < self.resource_layouts.len()
            invariant
                n == self.struct_layouts@.len(),
                forall|k: int| 0 <= k < q ==> (#[trigger] self.resource_layouts@[k]).struct_index < self.struct_layouts@.len(),
            decreases self.resource_layouts@.len() - q,
        {
            if self.resource_layouts[q].struct_index as usize >= n {
                assert(!self.wf()) by {
                    assert(self.resource_layouts@[q as int] == self.resource_layouts@[q as int]);
                }
                return false;
            }
            q = q + 1;
        }
        let mut l: usize = 0;
        while l < self.string_lists.len()
            invariant
                forall|k: int|
                    0 <= k < l ==> (#[trigger] self.string_lists@[k]).first + self.string_lists@[k].count <= u32::MAX,
            decreases self.string_lists@.len() - l,
        {
            if self.string_lists[l].first as u64 + self.string_lists[l].count as u64 > u32::MAX as u64 {
                assert(!self.wf()) by {
                    assert(self.string_lists@[l as int] == self.string_lists@[l as int]);
                }
                return false;
            }
            l = l + 1;
        }
        // Every struct's run ends in a terminator, and its fields fit.
        let mut s: usize = 0;
        while s < n
            invariant
                n == self.struct_layouts@.len(),
                self.fields@.len() <= u32::MAX,
                forall|k: int|
                    0 <= k < self.array_layouts@.len() ==> (#[trigger] self.array_layouts@[k]).struct_index
                        < self.struct_layouts@.len(),
                forall|k: int|
                    0 <= k < s ==> {
                        &&& (#[trigger] self.struct_layouts@[k]).index == k
                        &&& self.struct_terminated(k)
                    },
                forall|k: int, i: int|
                    0 <= k < s && #[trigger] self.field_of_struct(k, i) ==> {
                        &&& self.field_refs_valid(i)
                        &&& self.fields@[i].offset + self.field_extent(i) <= self.struct_layouts@[k].size
                    },
            decreases n - s,
        {
            if self.struct_layouts[s].index as usize != s {
                assert(!self.wf()) by {
                    assert(self.struct_layouts@[s as int] == self.struct_layouts@[s as int]);
                }
                return false;
            }
            let first = self.struct_layouts[s].first_field_index as usize;
            if first > self.fields.len() {
                assert(!self.wf()) by {
                    assert(self.struct_layouts@[s as int] == self.struct_layouts@[s as int]);
                    assert(!self.struct_terminated(s as int));
                }
                return false;
            }
            let mut i = first;
            while i < self.fields.len() && self.fields[i].field_type != TagFieldType::Terminator
                invariant
                    s < n == self.struct_layouts@.len(),
                    first == self.struct_layouts@[s as int].first_field_index,
                    first <= i <= self.fields@.len(),
                    self.no_terminator_between(first as int, i as int),
                    forall|g: int|
                        first <= g < i ==> {
                            &&& self.field_refs_valid(g)
                            &&& (#[trigger] self.fields@[g]).offset + self.field_extent(g)
                                <= self.struct_layouts@[s as int].size
                        },
                    forall|k: int|
                        0 <= k < self.array_layouts@.len() ==> (#[trigger] self.array_layouts@[k]).struct_index
                            < self.struct_layouts@.len(),
                decreases self.fields@.len() - i,
            {
                if !field_fits(self, s, i) {
                    assert(!self.wf()) by {
                        assert(self.field_of_struct(s as int, i as int));
                    }
                    return false;
                }
                i = i + 1;
            }
            if i >= self.fields.len() {
                assert(!self.wf()) by {
                    assert(self.struct_layouts@[s as int] == self.struct_layouts@[s as int]);
                    assert forall|t: int|
                        self.struct_layouts@[s as int].first_field_index <= t < self.fields@.len() implies (
                        #[trigger] self.fields@[t]).field_type != TagFieldType::Terminator by {}
                }
                return false;
            }
            proof {
                assert(self.fields@[i as int].field_type == TagFieldType::Terminator);
                assert(self.struct_terminated(s as int));
                assert forall|g: int| #[trigger] self.field_of_struct(s as int, g) implies {
                    &&& self.field_refs_valid(g)
                    &&& self.fields@[g].offset + self.field_extent(g) <= self.struct_layouts@[s as int].size
                } by {
                    if g >= i {
                        assert(self.fields@[i as int].field_type != TagFieldType::Terminator);
                    }
                    assert(self.fields@[g] == self.fields@[g]);
                }
            }
            s = s + 1;
        }
        assert(self.wf());
        // Ranks, round by round.
        let mut ranked: Vec<bool> = Vec::new();
        let mut rank: Vec<u64> = Vec::new();
        let mut k: usize = 0;
        while k < n
            invariant
                k <= n,
                ranked@.len() == k,
                rank@.len() == k,
                forall|j: int| 0 <= j < k ==> !(#[trigger] ranked@[j]),
            decreases n - k,
        {
            ranked.push(false);
            rank.push(0);
            k = k + 1;
        }
        proof {
            lemma_unranked_all(ranked@, n as int);
        }
        let mut left: usize = n;
        let mut round: u64 = 1;
        while left > 0
            invariant
                self.wf(),
                n == self.struct_layouts@.len(),
                ranked@.len() == n,
                rank@.len() == n,
                left == unranked(ranked@, n as int),
                1 <= round,
                round + left <= n + 1,
                forall|j: int| 0 <= j < n && #[trigger] ranked@[j] ==> rank@[j] < round,
                forall|j: int, i: int|
                    0 <= j < n && ranked@[j] && #[trigger] self.field_of_struct(j, i) ==> child_ranked_below(
                        *self,
                        ranked@,
                        rank@,
                        i,
                        rank@[j] as int,
                    ),
            decreases left,
        {
            let mut progress = false;
            let mut s: usize = 0;
            let ghost left0 = left;
            while s < n
                invariant
                    self.wf(),
                    n == self.struct_layouts@.len(),
                    ranked@.len() == n,
                    rank@.len() == n,
                    left == unranked(ranked@, n as int),
                    1 <= round,
                    round + left0 <= n + 1,
                    s <= n,
                    left <= left0,
                    progress ==> left < left0,
                    !progress ==> left == left0,
                    forall|j: int| 0 <= j < n && #[trigger] ranked@[j] ==> rank@[j] <= round,
                    !progress ==> forall|j: int| 0 <= j < n && #[trigger] ranked@[j] ==> rank@[j] < round,
                    forall|j: int, i: int|
                        0 <= j < n && ranked@[j] && #[trigger] self.field_of_struct(j, i) ==> child_ranked_below(
                            *self,
                            ranked@,
                            rank@,
                            i,
                            rank@[j] as int,
                        ),
                    !progress ==> forall|j: int| 0 <= j < s && !(#[trigger] ranked@[j]) ==> has_unready_child(*self, ranked@, rank@, j, round),
                decreases n - s,
            {
                if !ranked[s] {
                    let ready = children_ready(self, s, &ranked, &rank, round);
                    if ready {
                        let ghost before = ranked@;
                        let ghost rbefore = rank@;
                        ranked.set(s, true);
                        rank.set(s, round);
                        proof {
                            lemma_unranked_set(before, n as int, s as int);
                            assert forall|j: int, i: int|
                                0 <= j < n && ranked@[j] && #[trigger] self.field_of_struct(j, i) implies child_ranked_below(
                                    *self,
                                    ranked@,
                                    rank@,
                                    i,
                                    rank@[j] as int,
                                ) by {
                                assert(self.field_refs_valid(i));
                                if j == s {
                                    assert(child_ranked_below(*self, before, rbefore, i, round as int));
                                } else {
                                    assert(child_ranked_below(*self, before, rbefore, i, rbefore[j] as int));
                                }
                            }
                        }
                        left = left - 1;
                        progress = true;
                    }
                }
                s = s + 1;
            }
            if !progress {
                proof {
                    assert forall|rk: Seq<nat>| !inline_ranked(*self, rk) by {
                        if inline_ranked(*self, rk) {
                            let u = choose|u: int| 0 <= u < n && !ranked@[u];
                            lemma_some_unranked(ranked@, n as int);
                            lemma_no_bottom(*self, ranked@, rank@, round, rk, u, rk[u] as int + 1);
                        }
                    }
                }
                return false;
            }
            round = round + 1;
        }
        proof {
            lemma_unranked_none(ranked@, n as int);
        }
        let ghost rk = Seq::new(n as nat, |j: int| rank@[j] as nat);
        assert(inline_ranked(*self, rk)) by {
            assert forall|s: int, i: int| #[trigger] self.field_of_struct(s, i) implies {
                &&& self.fields@[i].field_type == TagFieldType::Struct ==> rk[self.fields@[i].definition as int] < rk[s]
                &&& self.fields@[i].field_type == TagFieldType::Array
                    ==> rk[self.array_layouts@[self.fields@[i].definition as int].struct_index as int] < rk[s]
            } by {
                assert(ranked@[s]);
                assert(child_ranked_below(*self, ranked@, rank@, i, rank@[s] as int));
                assert(self.field_refs_valid(i));
            }
        }
        true
    }
}

/// Claim `n` bytes of `body` at `pos`; the end of the claimed range.
fn take(body: &[u8], pos: usize, n: usize, context: &'static str) -> (r: Result<usize, ClassicError>)
    requires
        pos <= body@.len(),
    ensures
        match r {
            Ok(end) => end == pos + n && end <= body@.len(),
            Err(e) => pos + n > body@.len() && e == (ClassicError::UnexpectedEof {
                context,
                need: n,
                have: (body@.len() - pos) as usize,
            }),
        },
{
    let have = body.len() - pos;
    if n > have {
        Err(ClassicError::UnexpectedEof { context, need: n, have })
    } else {
        Ok(pos + n)
    }
}

/// The bytes `body[from..to]` as a vector.
fn copy_range(body: &[u8], from: usize, to: usize) -> (r: Vec<u8>)
    requires
        from <= to <= body@.len(),
    ensures
        r@ == body@.subrange(from as int, to as int),
{
    vstd::slice::slice_to_vec(vstd::slice::slice_subrange(body, from, to))
}

/// A Halo 2 block header at `pos`: its 16 bytes, element count, element
/// size, and the position after it.
pub(crate) fn read_h2_block_header(body: &[u8], pos: usize) -> (r: Result<(Vec<u8>, usize, usize, usize), ClassicError>)
    requires
        pos <= body@.len(),
    ensures
        match r {
            Ok((h, count, size, end)) => {
                &&& end == pos + 16 <= body@.len()
                &&& h@ == body@.subrange(pos as int, end as int)
                &&& count == crate::bytes::le_u32(h@, 8)
                &&& size == crate::bytes::le_u32(h@, 12)
            },
            Err(e) => pos + 16 > body@.len() && e is UnexpectedEof,
        },
{
    let end = take(body, pos, 16, "h2 block header")?;
    let h = copy_range(body, pos, end);
    let count = read_u32_le(h.as_slice(), 8) as usize;
    let size = read_u32_le(h.as_slice(), 12) as usize;
    Ok((h, count, size, end))
}

/// The empty block `bi`.
fn empty_block(bi: u32, endian: Endian) -> (r: TagBlockData)
    ensures
        r.block_index == bi,
        r.flags == 0,
        r.endian == endian,
        r.raw_data@.len() == 0,
        r.elements@.len() == 0,
        r.classic_block_header is None,
{
    TagBlockData {
        block_index: bi,
        flags: 0,
        raw_data: Vec::new(),
        endian,
        elements: Vec::new(),
        classic_block_header: None,
    }
}

/// A decoded block read from `body[pos..end]` (unsynced image),
/// emittable.
pub open spec fn block_read(layout: TagLayout, b: TagBlockData, body: Seq<u8>, pos: int, end: int) -> bool {
    &&& pos <= end <= body.len()
    &&& enc_block(layout, b, false) == body.subrange(pos, end)
    &&& block_encodable(layout, b)
}

/// A decoded block whose elements' slots agree with their records, and
/// whose Halo 2 header count is its element count, has agreeing counts.
proof fn lemma_block_counts_agree(layout: TagLayout, b: TagBlockData, si: u32, es: int)
    requires
        es >= 0,
        b.raw_data@.len() == b.elements@.len() * es,
        b.classic_block_header matches Some(h) ==> h@.len() >= 12 && le_u32(h@, 8) == b.elements@.len(),
        b.elements@.len() > 0 ==> stored_element_size(b) == es,
        forall|k: int|
            0 <= k < b.elements@.len() ==> {
                &&& (#[trigger] b.elements@[k]).struct_index == si
                &&& fields_fit(layout, k * es, b.elements@[k], (k + 1) * es)
                &&& fields_agree(layout, b.raw_data@.subrange(k * es, (k + 1) * es), b.elements@[k], b.endian)
            },
    ensures
        counts_agree(layout, b),
{
    if let Some(h) = b.classic_block_header {
        lemma_le_u32_bytes(h@, 8);
        lemma_put_same(h@, 8, 4);
    }
    let n = b.elements@.len() as int;
    if stored_element_size(b) > 0 {
        assert forall|k: int| 0 <= k < n implies {
            &&& fields_agree(layout, b.raw_data@.subrange(0 + k * es, 0 + (k + 1) * es), #[trigger] b.elements@[k], b.endian)
            &&& fields_fit(layout, 0, b.elements@[k], es)
        } by {
            lemma_fields_fit_shift(layout, k * es, b.elements@[k], (k + 1) * es, -(k * es));
            assert((k + 1) * es - k * es == es) by (nonlinear_arith);
        }
        lemma_sync_elems_fixed(layout, b.raw_data@, 0, b.elements@, es, n, b.endian);
    }
    assert forall|k: int| 0 <= k < n implies struct_counts_agree(layout, #[trigger] b.elements@[k]) by {
        lemma_agree_counts(layout, b.raw_data@.subrange(k * es, (k + 1) * es), b.elements@[k], b.endian);
    }
}

/// `count` records of `es` bytes at `pos`, each followed (after all
/// records) by its struct's trailing data. Records that read back (see
/// [`records_fit`]) and lie at `pos` are always read whole.
pub(crate) fn decode_records(
    layout: &TagLayout,
    bi: u32,
    header: Option<Vec<u8>>,
    count: usize,
    es: usize,
    body: &[u8],
    pos: usize,
    engine: ClassicEngine,
    endian: Endian,
    Ghost(ranks): Ghost<Seq<nat>>,
) -> (r: Result<(TagBlockData, usize), ClassicError>)
    requires
        layout.wf(),
        inline_ranked(*layout, ranks),
        bi < layout.block_layouts@.len(),
        pos <= body@.len(),
        header matches Some(h) ==> h@.len() >= 12 && le_u32(h@, 8) == count,
        endian == engine_endian(engine),
    ensures
        r matches Ok((b, end)) ==> {
            &&& pos <= end <= body@.len()
            &&& enc_block(*layout, b, false) == (match header {
                Some(h) => h@,
                None => Seq::empty(),
            }) + body@.subrange(pos as int, end as int)
            &&& block_encodable(*layout, b)
            &&& b.block_index == bi
            &&& b.endian == endian
            &&& b.elements@.len() == count
            &&& b.classic_block_header == header
        },
        r matches Err(e) ==> e is UnexpectedEof,
        forall|w: TagBlockData|
            #![trigger records_fit(*layout, w, layout.block_layouts@[bi as int].struct_index, es as int, engine)]
            records_fit(*layout, w, layout.block_layouts@[bi as int].struct_index, es as int, engine)
                && w.elements@.len() == count && starts_with(
                body@,
                pos as int,
                w.raw_data@ + enc_elems(*layout, w.elements@, count as int, false),
            ) ==> (r matches Ok((b, end)) && end == pos + w.raw_data@.len() + enc_elems(
                *layout,
                w.elements@,
                count as int,
                false,
            ).len() && counts_agree(*layout, b)),
    decreases body@.len() - pos, 1int, 0int, 0int,
{
    let si = layout.block_layouts[bi as usize].struct_index;
    let total = match count.checked_mul(es) {
        Some(t) => t,
        None => {
            proof {
                assert forall|w: TagBlockData|
                    #![trigger records_fit(*layout, w, si, es as int, engine)]
                    records_fit(*layout, w, si, es as int, engine) implies w.elements@.len() != count by {
                    assert(w.raw_data@.len() == w.raw_data.len());
                }
            }
            return Err(
                ClassicError::UnexpectedEof { context: "block elements", need: usize::MAX, have: body.len() - pos },
            );
        },
    };
    let raw_end = match take(body, pos, total, "block elements") {
        Ok(n) => n,
        Err(err) => {
            proof {
                assert forall|w: TagBlockData|
                    #![trigger records_fit(*layout, w, si, es as int, engine)]
                    records_fit(*layout, w, si, es as int, engine) && w.elements@.len() == count implies !starts_with(
                        body@,
                        pos as int,
                        w.raw_data@ + enc_elems(*layout, w.elements@, count as int, false),
                    ) by {
                    if starts_with(body@, pos as int, w.raw_data@ + enc_elems(*layout, w.elements@, count as int, false)) {
                        lemma_starts_with_split(body@, pos as int, w.raw_data@, enc_elems(*layout, w.elements@, count as int, false));
                    }
                }
            }
            return Err(err);
        },
    };
    let raw_data = copy_range(body, pos, raw_end);
    let mut elements: Vec<TagStructData> = Vec::new();
    let mut cur = raw_end;
    let mut i: usize = 0;
    assert(enc_elems(*layout, elements@, 0, false) =~= Seq::<u8>::empty());
    proof {
        assert forall|w: TagBlockData|
            #![trigger records_fit(*layout, w, si, es as int, engine)]
            records_fit(*layout, w, si, es as int, engine) && w.elements@.len() == count && starts_with(
                body@,
                pos as int,
                w.raw_data@ + enc_elems(*layout, w.elements@, count as int, false),
            ) implies w.raw_data@ == raw_data@ && starts_with(
                body@,
                raw_end as int,
                enc_elems(*layout, w.elements@, count as int, false),
            ) by {
            lemma_starts_with_split(body@, pos as int, w.raw_data@, enc_elems(*layout, w.elements@, count as int, false));
        }
    }
    while i < count
        invariant
            layout.wf(),
            inline_ranked(*layout, ranks),
            endian == engine_endian(engine),
            si == layout.block_layouts@[bi as int].struct_index,
            si < layout.struct_layouts@.len(),
            raw_data@.len() == count * es,
            raw_data@ == body@.subrange(pos as int, raw_end as int),
            pos <= raw_end <= cur <= body@.len(),
            raw_end == pos + count * es,
            i <= count,
            elements@.len() == i,
            enc_elems(*layout, elements@, i as int, false) == body@.subrange(raw_end as int, cur as int),
            forall|k: int|
                0 <= k < i ==> {
                    &&& (#[trigger] elements@[k]).struct_index == si
                    &&& struct_encodable(*layout, elements@[k])
                    &&& fields_fit(*layout, k * es, elements@[k], (k + 1) * es)
                },
            forall|w: TagBlockData|
                #![trigger records_fit(*layout, w, si, es as int, engine)]
                records_fit(*layout, w, si, es as int, engine) && w.elements@.len() == count && starts_with(
                    body@,
                    pos as int,
                    w.raw_data@ + enc_elems(*layout, w.elements@, count as int, false),
                ) ==> {
                    &&& w.raw_data@ == raw_data@
                    &&& starts_with(body@, raw_end as int, enc_elems(*layout, w.elements@, count as int, false))
                    &&& cur == raw_end + enc_elems(*layout, w.elements@, i as int, false).len()
                    &&& forall|k: int|
                        0 <= k < i ==> fields_agree(
                            *layout,
                            raw_data@.subrange(k * es, (k + 1) * es),
                            #[trigger] elements@[k],
                            endian,
                        )
                },
        decreases count - i,
    {
        proof {
            assert((i + 1) * es <= count * es) by (nonlinear_arith)
                requires
                    i < count,
            ;
            assert(i * es + es == (i + 1) * es) by (nonlinear_arith);
            if es > 0 {
                assert(count * es >= 1) by (nonlinear_arith)
                    requires
                        es > 0,
                        i < count,
                ;
            }
        }
        let elem_raw = vstd::slice::slice_subrange(raw_data.as_slice(), i * es, (i + 1) * es);
        let res = decode_struct_trailing(layout, si, elem_raw, body, cur, engine, endian, Ghost(ranks));
        let (sub, next) = match res {
            Ok(x) => x,
            Err(err) => {
                proof {
                    assert forall|w: TagBlockData|
                        #![trigger records_fit(*layout, w, si, es as int, engine)]
                        records_fit(*layout, w, si, es as int, engine) && w.elements@.len() == count implies !starts_with(
                            body@,
                            pos as int,
                            w.raw_data@ + enc_elems(*layout, w.elements@, count as int, false),
                        ) by {
                        if starts_with(body@, pos as int, w.raw_data@ + enc_elems(*layout, w.elements@, count as int, false)) {
                            lemma_starts_with_elems(*layout, body@, raw_end as int, w.elements@, i as int, count as int);
                            assert(elem_raw@ == w.raw_data@.subrange(i * es, (i + 1) * es));
                            assert(fields_decodable(*layout, elem_raw@, w.elements@[i as int], engine));
                        }
                    }
                }
                return Err(err);
            },
        };
        let elem = TagStructData { struct_index: si, sub_chunks: sub };
        proof {
            lemma_fields_fit_shift(*layout, 0, elem, elem_raw@.len() as int, i * es);
            assert forall|w: TagBlockData|
                #![trigger records_fit(*layout, w, si, es as int, engine)]
                records_fit(*layout, w, si, es as int, engine) && w.elements@.len() == count && starts_with(
                    body@,
                    pos as int,
                    w.raw_data@ + enc_elems(*layout, w.elements@, count as int, false),
                ) implies next == raw_end + enc_elems(*layout, w.elements@, i + 1, false).len() && fields_agree(
                *layout,
                elem_raw@,
                elem,
                endian,
            ) by {
                lemma_starts_with_elems(*layout, body@, raw_end as int, w.elements@, i as int, count as int);
                assert(elem_raw@ == w.raw_data@.subrange(i * es, (i + 1) * es));
                assert(fields_decodable(*layout, elem_raw@, w.elements@[i as int], engine));
            }
        }
        let ghost before = elements@;
        elements.push(elem);
        proof {
            assert(elements@[i as int] == elem);
            assert(elem_raw@ == raw_data@.subrange(i * es, (i + 1) * es));
            assert(before =~= elements@.subrange(0, i as int));
            assert(enc_elems(*layout, elements@, i as int, false) == enc_elems(*layout, before, i as int, false)) by {
                lemma_enc_elems_prefix(*layout, before, elements@, i as int);
            }
            assert(body@.subrange(raw_end as int, next as int) =~= body@.subrange(raw_end as int, cur as int)
                + body@.subrange(cur as int, next as int));
        }
        cur = next;
        i = i + 1;
    }
    let ghost hdr = header;
    let b = TagBlockData { block_index: bi, flags: 0, raw_data, endian, elements, classic_block_header: header };
    proof {
        if count > 0 {
            assert((count * es) / (count as int) == es) by (nonlinear_arith)
                requires
                    count > 0,
            ;
        }
        assert(count > 0 ==> stored_element_size(b) == es);
        assert forall|w: TagBlockData|
            #![trigger records_fit(*layout, w, si, es as int, engine)]
            records_fit(*layout, w, si, es as int, engine) && w.elements@.len() == count && starts_with(
                body@,
                pos as int,
                w.raw_data@ + enc_elems(*layout, w.elements@, count as int, false),
            ) implies counts_agree(*layout, b) by {
            lemma_block_counts_agree(*layout, b, si, es as int);
        }
        assert(body@.subrange(pos as int, cur as int) =~= body@.subrange(pos as int, raw_end as int) + body@.subrange(
            raw_end as int,
            cur as int,
        ));
    }
    Ok((b, cur))
}

/// The trailing bytes of elements `0..n` depend only on those elements.
proof fn lemma_enc_elems_prefix(layout: TagLayout, a: Seq<TagStructData>, b: Seq<TagStructData>, n: int)
    requires
        0 <= n <= a.len(),
        n <= b.len(),
        forall|k: int| 0 <= k < n ==> a[k] == b[k],
    ensures
        enc_elems(layout, b, n, false) == enc_elems(layout, a, n, false),
    decreases n,
{
    if n > 0 {
        lemma_enc_elems_prefix(layout, a, b, n - 1);
    }
}

/// Block `bi` whose inline count is `inline_count`: nothing when the
/// count is zero; else (after the Halo 2 header, whose count and size
/// govern) its records and their trailing data. A block that reads back
/// (see [`block_decodable`]) and lies at `pos` is always read whole.
fn decode_block(
    layout: &TagLayout,
    bi: u32,
    inline_count: usize,
    body: &[u8],
    pos: usize,
    engine: ClassicEngine,
    endian: Endian,
    Ghost(ranks): Ghost<Seq<nat>>,
) -> (r: Result<(TagBlockData, usize), ClassicError>)
    requires
        layout.wf(),
        inline_ranked(*layout, ranks),
        bi < layout.block_layouts@.len(),
        pos <= body@.len(),
        endian == engine_endian(engine),
    ensures
        r matches Ok((b, end)) ==> {
            &&& block_read(*layout, b, body@, pos as int, end as int)
            &&& b.block_index == bi
            &&& b.endian == endian
        },
        r matches Err(e) ==> e is UnexpectedEof,
        forall|w: TagBlockData|
            #![trigger block_decodable(*layout, w, layout.block_layouts@[bi as int].struct_index, engine)]
            block_decodable(*layout, w, layout.block_layouts@[bi as int].struct_index, engine)
                && w.elements@.len() == inline_count && starts_with(body@, pos as int, enc_block(*layout, w, false))
                ==> (r matches Ok((b, end)) && end == pos + enc_block(*layout, w, false).len() && counts_agree(*layout, b)
                && b.elements@.len() == inline_count),
    decreases body@.len() - pos, 1int, 1int, 0int,
{
    if inline_count == 0 {
        let b = empty_block(bi, endian);
        assert(enc_block(*layout, b, false) =~= Seq::<u8>::empty());
        assert(body@.subrange(pos as int, pos as int) =~= Seq::<u8>::empty());
        proof {
            assert forall|w: TagBlockData|
                #![trigger block_decodable(*layout, w, layout.block_layouts@[bi as int].struct_index, engine)]
                block_decodable(*layout, w, layout.block_layouts@[bi as int].struct_index, engine)
                    && w.elements@.len() == inline_count implies enc_block(*layout, w, false).len() == 0 by {
                assert(enc_elems(*layout, w.elements@, 0, false) =~= Seq::<u8>::empty());
            }
            assert(counts_agree(*layout, b));
        }
        return Ok((b, pos));
    }
    let si = layout.block_layouts[bi as usize].struct_index;
    match engine {
        ClassicEngine::HaloCe => {
            let es = layout.struct_layouts[si as usize].size;
            let res = decode_records(layout, bi, None, inline_count, es, body, pos, engine, endian, Ghost(ranks));
            proof {
                assert forall|w: TagBlockData|
                    #![trigger block_decodable(*layout, w, si, engine)]
                    block_decodable(*layout, w, si, engine) && w.elements@.len() == inline_count && starts_with(
                        body@,
                        pos as int,
                        enc_block(*layout, w, false),
                    ) implies (res matches Ok((b, end)) && end == pos + enc_block(*layout, w, false).len() && counts_agree(
                    *layout,
                    b,
                ) && b.elements@.len() == inline_count) by {
                    assert(enc_block(*layout, w, false) =~= w.raw_data@ + enc_elems(*layout, w.elements@, inline_count as int, false));
                    assert(records_fit(*layout, w, si, es as int, engine));
                }
            }
            let (b, end) = match res {
                Ok(x) => x,
                Err(err) => {
                    return Err(err);
                },
            };
            assert(enc_block(*layout, b, false) =~= body@.subrange(pos as int, end as int));
            Ok((b, end))
        },
        ClassicEngine::Halo2 => {
            let (h, count, es, after) = match read_h2_block_header(body, pos) {
                Ok(x) => x,
                Err(err) => {
                    proof {
                        assert forall|w: TagBlockData|
                            #![trigger block_decodable(*layout, w, si, engine)]
                            block_decodable(*layout, w, si, engine) && w.elements@.len() == inline_count implies !starts_with(
                                body@,
                                pos as int,
                                enc_block(*layout, w, false),
                            ) by {
                            let hw = w.classic_block_header->Some_0;
                            assert(enc_block(*layout, w, false) =~= hw@ + (w.raw_data@ + enc_elems(*layout, w.elements@, w.elements@.len() as int, false)));
                            if starts_with(body@, pos as int, enc_block(*layout, w, false)) {
                                lemma_starts_with_split(body@, pos as int, hw@, w.raw_data@ + enc_elems(*layout, w.elements@, w.elements@.len() as int, false));
                            }
                        }
                    }
                    return Err(err);
                },
            };
            let ghost hv = h@;
            let res = decode_records(
                layout,
                bi,
                Some(h),
                count,
                es,
                body,
                after,
                engine,
                endian,
                Ghost(ranks),
            );
            proof {
                assert forall|w: TagBlockData|
                    #![trigger block_decodable(*layout, w, si, engine)]
                    block_decodable(*layout, w, si, engine) && w.elements@.len() == inline_count && starts_with(
                        body@,
                        pos as int,
                        enc_block(*layout, w, false),
                    ) implies (res matches Ok((b, end)) && end == pos + enc_block(*layout, w, false).len() && counts_agree(
                    *layout,
                    b,
                ) && b.elements@.len() == inline_count) by {
                    let hw = w.classic_block_header->Some_0;
                    let rest = w.raw_data@ + enc_elems(*layout, w.elements@, w.elements@.len() as int, false);
                    assert(enc_block(*layout, w, false) =~= hw@ + rest);
                    lemma_starts_with_split(body@, pos as int, hw@, rest);
                    assert(hw@ == hv);
                    assert(records_fit(*layout, w, si, es as int, engine));
                }
            }
            let (b, end) = match res {
                Ok(x) => x,
                Err(err) => {
                    return Err(err);
                },
            };
            assert(body@.subrange(pos as int, end as int) =~= hv + body@.subrange(after as int, end as int));
            Ok((b, end))
        },
    }
}

/// Sub-chunk `e` of field `fi` was read: it owns the field, its
/// trailing bytes are `bytes`, its slots fit a region ending at `lim`,
/// and it can be emitted.
pub open spec fn entry_read(layout: TagLayout, fi: int, e: TagSubChunkEntry, lim: int, bytes: Seq<u8>) -> bool {
    &&& e.field_index == Some(fi as u32)
    &&& content_piece(layout, e.content, false) == bytes
    &&& content_fits(
        layout,
        layout.fields@[fi].offset as int,
        layout.fields@[fi].field_type,
        layout.fields@[fi].definition,
        e.content,
        lim,
    )
    &&& content_encodable(layout, e.content)
}

/// The end of field `fi`'s inline slot that the walk needs inside the
/// struct's fixed bytes.
pub open spec fn slot_end(layout: TagLayout, fi: int) -> int {
    let f = layout.fields@[fi];
    match f.field_type {
        TagFieldType::Struct => f.offset + layout.struct_layouts@[f.definition as int].size,
        TagFieldType::Array => f.offset + layout.array_element_size(f.definition as int) * (layout.array_layouts@[
            f.definition as int].count as int),
        TagFieldType::TagReference => f.offset + 16,
        _ => f.offset + 4,
    }
}

/// Field `fi` of struct `si`, whose fixed bytes are `raw`: for a field
/// with trailing data, its sub-chunk read from `body` at `cur`; and the
/// position after what was read.
#[verifier::rlimit(60)]
#[verifier::spinoff_prover]
fn decode_field(
    layout: &TagLayout,
    si: u32,
    fi: usize,
    raw: &[u8],
    body: &[u8],
    cur: usize,
    engine: ClassicEngine,
    endian: Endian,
    Ghost(ranks): Ghost<Seq<nat>>,
) -> (r: Result<(Option<TagSubChunkEntry>, usize), ClassicError>)
    requires
        layout.wf(),
        inline_ranked(*layout, ranks),
        layout.field_of_struct(si as int, fi as int),
        cur <= body@.len(),
        endian == engine_endian(engine),
    ensures
        r matches Ok((pushed, next)) ==> {
            &&& cur <= next <= body@.len()
            &&& if trails(layout.fields@[fi as int].field_type) {
                pushed matches Some(e) && entry_read(
                    *layout,
                    fi as int,
                    e,
                    raw@.len() as int,
                    body@.subrange(cur as int, next as int),
                )
            } else {
                pushed is None && next == cur
            }
        },
        r matches Err(e) ==> e is UnexpectedEof,
        forall|w: TagStructData|
            #![trigger field_decodable(*layout, raw@, w, fi as int, engine)]
            field_decodable(*layout, raw@, w, fi as int, engine) && starts_with(
                body@,
                cur as int,
                piece(*layout, w, fi as int, false),
            ) ==> (r matches Ok((pushed, next)) && next == cur + piece(*layout, w, fi as int, false).len() && (
            pushed matches Some(x) ==> content_agrees(*layout, raw@, fi as int, x.content, endian))),
    decreases body@.len() - cur, (if raw@.len() > 0 {
        2int
    } else {
        0int
    }), ranks[si as int] as int, 0int,
{
    let ghost s = si as int;
    proof {
        assert(layout.field_refs_valid(fi as int));
    }
    let raw_len = raw.len();
    let field = &layout.fields[fi];
    let t_fi = field.field_type;
    let trailing = match t_fi {
        TagFieldType::Block | TagFieldType::Data | TagFieldType::TagReference | TagFieldType::StringId
        | TagFieldType::Struct | TagFieldType::Array => true,
        _ => false,
    };
    if !trailing {
        return Ok((None, cur));
    }
    let off = field.offset as usize;
    let end: usize = match t_fi {
        TagFieldType::Struct => {
            off + layout.struct_layouts[field.definition as usize].size
        },
        TagFieldType::Array => {
            let a = &layout.array_layouts[field.definition as usize];
            proof {
                assert(layout.field_extent(fi as int) == layout.array_element_size(field.definition as int)
                    * (a.count as int));
            }
            off + layout.struct_layouts[a.struct_index as usize].size * a.count as usize
        },
        TagFieldType::TagReference => {
            if off > usize::MAX - 16 {
                assert(slot_end(*layout, fi as int) > raw@.len());
                return Err(
                    ClassicError::UnexpectedEof {
                        context: "struct fixed field (cursor desync?)",
                        need: usize::MAX,
                        have: raw_len,
                    },
                );
            }
            off + 16
        },
        _ => {
            if off > usize::MAX - 4 {
                assert(slot_end(*layout, fi as int) > raw@.len());
                return Err(
                    ClassicError::UnexpectedEof {
                        context: "struct fixed field (cursor desync?)",
                        need: usize::MAX,
                        have: raw_len,
                    },
                );
            }
            off + 4
        },
    };
    assert(end == slot_end(*layout, fi as int));
    if end > raw_len {
        return Err(
            ClassicError::UnexpectedEof { context: "struct fixed field (cursor desync?)", need: end, have: raw_len },
        );
    }
    let ghost e = engine_endian(engine);
    match t_fi {
        TagFieldType::Block => {
            let count = read_u32(raw, off, endian) as usize;
            let bi = field.definition;
            let res = decode_block(layout, bi, count, body, cur, engine, endian, Ghost(ranks));
            let ghost bsi = layout.block_layouts@[bi as int].struct_index;
            let (block, next) = match res {
                Ok(x) => x,
                Err(err) => {
                    proof {
                        assert forall|w: TagStructData|
                            #![trigger field_decodable(*layout, raw@, w, fi as int, engine)]
                            field_decodable(*layout, raw@, w, fi as int, engine) implies !starts_with(
                                body@,
                                cur as int,
                                piece(*layout, w, fi as int, false),
                            ) by {
                            let j = entry_of(w.sub_chunks@, fi as int)->Some_0;
                            match w.sub_chunks@[j].content {
                                TagSubChunkContent::Block(b) => {
                                    assert(block_decodable(*layout, b, bsi, engine));
                                },
                                _ => {},
                            }
                        }
                    }
                    return Err(err);
                },
            };
            proof {
                assert forall|w: TagStructData|
                    #![trigger field_decodable(*layout, raw@, w, fi as int, engine)]
                    field_decodable(*layout, raw@, w, fi as int, engine) && starts_with(
                        body@,
                        cur as int,
                        piece(*layout, w, fi as int, false),
                    ) implies next == cur + piece(*layout, w, fi as int, false).len() && content_agrees(
                    *layout,
                    raw@,
                    fi as int,
                    TagSubChunkContent::Block(block),
                    endian,
                ) by {
                    let j = entry_of(w.sub_chunks@, fi as int)->Some_0;
                    match w.sub_chunks@[j].content {
                        TagSubChunkContent::Block(b) => {
                            assert(block_decodable(*layout, b, bsi, engine));
                            lemma_u32_at_bytes(raw@, off as int, endian);
                        },
                        _ => {},
                    }
                }
            }
            let pushed = Some(
                TagSubChunkEntry { field_index: Some(fi as u32), content: TagSubChunkContent::Block(block) },
            );
            assert(pushed matches Some(x) && entry_read(*layout, fi as int, x, raw@.len() as int, body@.subrange(cur as int, next as int)));
            Ok((pushed, next))
        },
        TagFieldType::Data => {
            let len = read_u32(raw, off, endian) as usize;
            let next = match take(body, cur, len, "data blob") {
                Ok(n) => n,
                Err(err) => {
                    return Err(err);
                },
            };
            let blob = copy_range(body, cur, next);
            proof {
                lemma_u32_at_bytes(raw@, off as int, endian);
            }
            let pushed = Some(
                TagSubChunkEntry { field_index: Some(fi as u32), content: TagSubChunkContent::Data(blob) },
            );
            assert(pushed matches Some(x) && entry_read(*layout, fi as int, x, raw@.len() as int, body@.subrange(cur as int, next as int)));
            Ok((pushed, next))
        },
        TagFieldType::TagReference => {
            let group = read_u32(raw, off, endian);
            let len = read_u32(raw, off + 8, endian) as usize;
            let mut payload = copy_range(raw, off, off + 4);
            assert(payload@.len() == 4);
            let mut next = cur;
            if group != 0xFFFF_FFFF && len != 0 {
                if len == usize::MAX {
                    proof {
                        assert forall|w: TagStructData|
                            #![trigger field_decodable(*layout, raw@, w, fi as int, engine)]
                            field_decodable(*layout, raw@, w, fi as int, engine) implies false by {
                            let j = entry_of(w.sub_chunks@, fi as int)->Some_0;
                            match w.sub_chunks@[j].content {
                                TagSubChunkContent::TagReference(p) => {
                                    assert(p@.len() == p.len());
                                },
                                _ => {},
                            }
                        }
                    }
                    return Err(
                        ClassicError::UnexpectedEof {
                            context: "tag_reference path",
                            need: usize::MAX,
                            have: body.len() - cur,
                        },
                    );
                }
                next = match take(body, cur, len + 1, "tag_reference path") {
                    Ok(n) => n,
                    Err(err) => {
                        return Err(err);
                    },
                };
                let path = vstd::slice::slice_subrange(body, cur, next);
                let ghost p0 = payload@;
                payload.extend_from_slice(path);
                assert(payload@.skip(4) =~= body@.subrange(cur as int, next as int)) by {
                    assert(payload@ =~= p0 + path@);
                }
                assert(payload@.len() > 4);
            } else {
                assert(body@.subrange(cur as int, next as int) =~= Seq::<u8>::empty());
            }
            proof {
                lemma_u32_at_bytes(raw@, off + 8, endian);
                assert(payload@.subrange(0, 4) =~= raw@.subrange(off as int, off + 4));
                assert forall|w: TagStructData|
                    #![trigger field_decodable(*layout, raw@, w, fi as int, engine)]
                    field_decodable(*layout, raw@, w, fi as int, engine) implies content_agrees(
                        *layout,
                        raw@,
                        fi as int,
                        TagSubChunkContent::TagReference(payload),
                        endian,
                    ) by {
                    let j = entry_of(w.sub_chunks@, fi as int)->Some_0;
                    match w.sub_chunks@[j].content {
                        TagSubChunkContent::TagReference(p) => {},
                        _ => {},
                    }
                }
            }
            let pushed = Some(
                TagSubChunkEntry { field_index: Some(fi as u32), content: TagSubChunkContent::TagReference(payload) },
            );
            assert(pushed matches Some(x) && entry_read(*layout, fi as int, x, raw@.len() as int, body@.subrange(cur as int, next as int)));
            Ok((pushed, next))
        },
        TagFieldType::StringId => {
            let len = read_u16_be(raw, off + 2) as usize;
            let next = match take(body, cur, len, "string_id value") {
                Ok(n) => n,
                Err(err) => {
                    return Err(err);
                },
            };
            let text = copy_range(body, cur, next);
            proof {
                lemma_be_u16_bytes(raw@, off + 2);
            }
            let pushed = Some(
                TagSubChunkEntry { field_index: Some(fi as u32), content: TagSubChunkContent::StringId(text) },
            );
            assert(pushed matches Some(x) && entry_read(*layout, fi as int, x, raw@.len() as int, body@.subrange(cur as int, next as int)));
            Ok((pushed, next))
        },
        TagFieldType::Struct => {
            let child_si = field.definition;
            let child_size = layout.struct_layouts[child_si as usize].size;
            let child_raw = vstd::slice::slice_subrange(raw, off, off + child_size);
            let res = decode_struct_trailing(layout, child_si, child_raw, body, cur, engine, endian, Ghost(ranks));
            let (child_sub, next) = match res {
                Ok(x) => x,
                Err(err) => {
                    proof {
                        assert forall|w: TagStructData|
                            #![trigger field_decodable(*layout, raw@, w, fi as int, engine)]
                            field_decodable(*layout, raw@, w, fi as int, engine) implies !starts_with(
                                body@,
                                cur as int,
                                piece(*layout, w, fi as int, false),
                            ) by {
                            let j = entry_of(w.sub_chunks@, fi as int)->Some_0;
                            match w.sub_chunks@[j].content {
                                TagSubChunkContent::Struct(c) => {
                                    assert(fields_decodable(*layout, child_raw@, c, engine));
                                },
                                _ => {},
                            }
                        }
                    }
                    return Err(err);
                },
            };
            proof {
                assert forall|w: TagStructData|
                    #![trigger field_decodable(*layout, raw@, w, fi as int, engine)]
                    field_decodable(*layout, raw@, w, fi as int, engine) && starts_with(
                        body@,
                        cur as int,
                        piece(*layout, w, fi as int, false),
                    ) implies next == cur + piece(*layout, w, fi as int, false).len() && fields_agree(
                    *layout,
                    child_raw@,
                    TagStructData { struct_index: child_si, sub_chunks: child_sub },
                    endian,
                ) by {
                    let j = entry_of(w.sub_chunks@, fi as int)->Some_0;
                    match w.sub_chunks@[j].content {
                        TagSubChunkContent::Struct(c) => {
                            assert(fields_decodable(*layout, child_raw@, c, engine));
                        },
                        _ => {},
                    }
                }
            }
            let child = TagStructData { struct_index: child_si, sub_chunks: child_sub };
            proof {
                lemma_fields_fit_shift(*layout, 0, child, child_size as int, off as int);
            }
            let pushed = Some(
                TagSubChunkEntry { field_index: Some(fi as u32), content: TagSubChunkContent::Struct(child) },
            );
            assert(pushed matches Some(x) && entry_read(*layout, fi as int, x, raw@.len() as int, body@.subrange(cur as int, next as int)));
            Ok((pushed, next))
        },
        _ => {
            // An inline array: each element's trailing data in turn.
            let a = &layout.array_layouts[field.definition as usize];
            let asi = a.struct_index;
            let count = a.count as usize;
            let es = layout.struct_layouts[asi as usize].size;
            let mut elems: Vec<TagStructData> = Vec::new();
            let start = cur;
            let mut at = cur;
            let mut i: usize = 0;
            assert(enc_elems(*layout, elems@, 0, false) =~= Seq::<u8>::empty());
            while i < count
                invariant
                    layout.wf(),
                    inline_ranked(*layout, ranks),
                    layout.field_of_struct(s, fi as int),
                    s == si,
                    endian == engine_endian(engine),
                    raw_len == raw@.len(),
                    field.definition == layout.fields@[fi as int].definition,
                    layout.fields@[fi as int].field_type == TagFieldType::Array,
                    field.definition < layout.array_layouts@.len(),
                    asi == layout.array_layouts@[field.definition as int].struct_index,
                    count == layout.array_layouts@[field.definition as int].count,
                    asi < layout.struct_layouts@.len(),
                    es == layout.struct_layouts@[asi as int].size,
                    off == layout.fields@[fi as int].offset,
                    off + es * count == end,
                    end <= raw@.len(),
                    start <= at <= body@.len(),
                    start == cur,
                    i <= count,
                    elems@.len() == i,
                    enc_elems(*layout, elems@, i as int, false) == body@.subrange(start as int, at as int),
                    forall|k: int|
                        0 <= k < i ==> {
                            &&& (#[trigger] elems@[k]).struct_index == asi
                            &&& struct_encodable(*layout, elems@[k])
                            &&& fields_fit(*layout, off + k * es, elems@[k], off + (k + 1) * es)
                        },
                    forall|w: TagStructData|
                        #![trigger field_decodable(*layout, raw@, w, fi as int, engine)]
                        field_decodable(*layout, raw@, w, fi as int, engine) && starts_with(
                            body@,
                            cur as int,
                            piece(*layout, w, fi as int, false),
                        ) ==> {
                            &&& at == start + enc_elems(*layout, array_at(w, fi as int), i as int, false).len()
                            &&& forall|k: int|
                                0 <= k < i ==> fields_agree(
                                    *layout,
                                    raw@.subrange(off + k * es, off + (k + 1) * es),
                                    #[trigger] elems@[k],
                                    endian,
                                )
                        },
                decreases count - i,
            {
                proof {
                    assert((i + 1) * es <= count * es) by (nonlinear_arith)
                        requires
                            i < count,
                    ;
                    assert(i * es + es == (i + 1) * es) by (nonlinear_arith);
                    assert(es * count == count * es) by (nonlinear_arith);
                }
                let elem_raw = vstd::slice::slice_subrange(raw, off + i * es, off + (i + 1) * es);
                let res = decode_struct_trailing(layout, asi, elem_raw, body, at, engine, endian, Ghost(ranks));
                let (sub, next) = match res {
                    Ok(x) => x,
                    Err(err) => {
                        proof {
                            assert forall|w: TagStructData|
                                #![trigger field_decodable(*layout, raw@, w, fi as int, engine)]
                                field_decodable(*layout, raw@, w, fi as int, engine) implies !starts_with(
                                    body@,
                                    cur as int,
                                    piece(*layout, w, fi as int, false),
                                ) by {
                                let els = array_at(w, fi as int);
                                if starts_with(body@, cur as int, piece(*layout, w, fi as int, false)) {
                                    lemma_starts_with_elems(*layout, body@, start as int, els, i as int, count as int);
                                    assert(fields_decodable(*layout, elem_raw@, els[i as int], engine));
                                }
                            }
                        }
                        return Err(err);
                    },
                };
                let elem = TagStructData { struct_index: asi, sub_chunks: sub };
                proof {
                    lemma_fields_fit_shift(*layout, 0, elem, es as int, off + i * es);
                    assert(off + i * es + es == off + (i + 1) * es);
                    assert forall|w: TagStructData|
                        #![trigger field_decodable(*layout, raw@, w, fi as int, engine)]
                        field_decodable(*layout, raw@, w, fi as int, engine) && starts_with(
                            body@,
                            cur as int,
                            piece(*layout, w, fi as int, false),
                        ) implies next == start + enc_elems(*layout, array_at(w, fi as int), i + 1, false).len()
                        && fields_agree(*layout, elem_raw@, elem, endian) by {
                        let els = array_at(w, fi as int);
                        lemma_starts_with_elems(*layout, body@, start as int, els, i as int, count as int);
                        assert(fields_decodable(*layout, elem_raw@, els[i as int], engine));
                    }
                }
                let ghost before = elems@;
                elems.push(elem);
                proof {
                    assert(elems@[i as int] == elem);
                    assert forall|k: int| 0 <= k < i implies elems@[k] == before[k] by {}
                    lemma_enc_elems_prefix(*layout, before, elems@, i as int);
                    assert(body@.subrange(start as int, next as int) =~= body@.subrange(start as int, at as int)
                        + body@.subrange(at as int, next as int));
                }
                at = next;
                i = i + 1;
            }
            proof {
                assert(count * es == es * count) by (nonlinear_arith);
            }
            let next = at;
            let pushed = Some(
                TagSubChunkEntry { field_index: Some(fi as u32), content: TagSubChunkContent::Array(elems) },
            );
            assert(pushed matches Some(x) && entry_read(*layout, fi as int, x, raw@.len() as int, body@.subrange(cur as int, next as int)));
            Ok((pushed, next))
        },
    }
}

/// The trailing data of a struct `si` whose fixed bytes are `raw`, read
/// from `body` at `pos` field by field; the sub-chunks and the position
/// after them. A struct that reads back (see [`fields_decodable`]) and
/// lies at `pos` is always read whole.
fn decode_struct_trailing(
    layout: &TagLayout,
    si: u32,
    raw: &[u8],
    body: &[u8],
    pos: usize,
    engine: ClassicEngine,
    endian: Endian,
    Ghost(ranks): Ghost<Seq<nat>>,
) -> (r: Result<(Vec<TagSubChunkEntry>, usize), ClassicError>)
    requires
        layout.wf(),
        inline_ranked(*layout, ranks),
        si < layout.struct_layouts@.len(),
        pos <= body@.len(),
        endian == engine_endian(engine),
    ensures
        r matches Ok((sub, end)) ==> {
            let d = TagStructData { struct_index: si, sub_chunks: sub };
            &&& pos <= end <= body@.len()
            &&& enc_fields(
                *layout,
                d,
                layout.struct_layouts@[si as int].first_field_index as int,
                false,
            ) == body@.subrange(pos as int, end as int)
            &&& fields_fit(*layout, 0, d, raw@.len() as int)
            &&& struct_encodable(*layout, d)
        },
        r matches Err(e) ==> e is UnexpectedEof,
        forall|w: TagStructData|
            #![trigger fields_decodable(*layout, raw@, w, engine)]
            w.struct_index == si && fields_decodable(*layout, raw@, w, engine) && starts_with(
                body@,
                pos as int,
                enc_fields(*layout, w, layout.struct_layouts@[si as int].first_field_index as int, false),
            ) ==> (r matches Ok((sub, end)) && end == pos + enc_fields(
                *layout,
                w,
                layout.struct_layouts@[si as int].first_field_index as int,
                false,
            ).len() && fields_agree(*layout, raw@, TagStructData { struct_index: si, sub_chunks: sub }, endian)),
    decreases body@.len() - pos, (if raw@.len() > 0 {
        2int
    } else {
        0int
    }), ranks[si as int] as int, 1int,
{
    let ghost s = si as int;
    let first = layout.struct_layouts[si as usize].first_field_index as usize;
    let ghost t = lemma_run_has_end(layout, s, first as int);
    let mut entries: Vec<TagSubChunkEntry> = Vec::new();
    let mut cur = pos;
    let mut fi = first;
    assert(enc_span(*layout, TagStructData { struct_index: si, sub_chunks: entries }, first as int, first as int, false)
        =~= Seq::<u8>::empty());
    while layout.fields[fi].field_type != TagFieldType::Terminator
        invariant
            layout.wf(),
            inline_ranked(*layout, ranks),
            s == si,
            si < layout.struct_layouts@.len(),
            endian == engine_endian(engine),
            first == layout.first_field(s),
            first <= fi <= t < layout.fields@.len(),
            layout.fields@[t].field_type == TagFieldType::Terminator,
            layout.no_terminator_between(first as int, fi as int),
            pos <= cur <= body@.len(),
            forall|k: int|
                0 <= k < entries@.len() ==> ((#[trigger] entries@[k]).field_index matches Some(x) && first <= x < fi),
            enc_span(*layout, TagStructData { struct_index: si, sub_chunks: entries }, first as int, fi as int, false)
                == body@.subrange(pos as int, cur as int),
            forall|g: int|
                #![trigger layout.field_of_struct(s, g)]
                first <= g < fi && layout.field_of_struct(s, g) ==> {
                    &&& piece_fits(
                        *layout,
                        0,
                        TagStructData { struct_index: si, sub_chunks: entries },
                        g,
                        raw@.len() as int,
                    )
                    &&& piece_encodable(*layout, TagStructData { struct_index: si, sub_chunks: entries }, g)
                },
            forall|w: TagStructData|
                #![trigger fields_decodable(*layout, raw@, w, engine)]
                w.struct_index == si && fields_decodable(*layout, raw@, w, engine) && starts_with(
                    body@,
                    pos as int,
                    enc_fields(*layout, w, first as int, false),
                ) ==> cur == pos + enc_span(*layout, w, first as int, fi as int, false).len() && fields_agree_below(
                    *layout,
                    raw@,
                    TagStructData { struct_index: si, sub_chunks: entries },
                    fi as int,
                    endian,
                ),
        decreases t - fi,
    {
        let ghost d = TagStructData { struct_index: si, sub_chunks: entries };
        proof {
            assert(layout.field_of_struct(s, fi as int));
            assert(fi < u32::MAX);
            // No earlier sub-chunk owns this field.
            lemma_entry_in_range(entries@, fi as int);
            if let Some(j) = crate::data::entry_of(entries@, fi as int) {
                assert(entries@[j].field_index == Some(fi as u32));
                assert(false);
            }
        }
        let ghost cur0 = cur;
        let res = decode_field(layout, si, fi, raw, body, cur, engine, endian, Ghost(ranks));
        let (pushed, next) = match res {
            Ok(x) => x,
            Err(err) => {
                proof {
                    assert forall|w: TagStructData|
                        #![trigger fields_decodable(*layout, raw@, w, engine)]
                        w.struct_index == si && fields_decodable(*layout, raw@, w, engine) implies !starts_with(
                            body@,
                            pos as int,
                            enc_fields(*layout, w, first as int, false),
                        ) by {
                        if starts_with(body@, pos as int, enc_fields(*layout, w, first as int, false)) {
                            lemma_piece_at(*layout, body@, pos as int, w, first as int, fi as int);
                            assert(field_decodable(*layout, raw@, w, fi as int, engine));
                        }
                    }
                }
                return Err(err);
            },
        };
        proof {
            assert forall|w: TagStructData|
                #![trigger fields_decodable(*layout, raw@, w, engine)]
                w.struct_index == si && fields_decodable(*layout, raw@, w, engine) && starts_with(
                    body@,
                    pos as int,
                    enc_fields(*layout, w, first as int, false),
                ) implies next == pos + enc_span(*layout, w, first as int, fi + 1, false).len() && (pushed matches Some(
                    x,
                ) ==> content_agrees(*layout, raw@, fi as int, x.content, endian)) by {
                lemma_piece_at(*layout, body@, pos as int, w, first as int, fi as int);
                assert(field_decodable(*layout, raw@, w, fi as int, engine));
                assert(enc_span(*layout, w, first as int, fi + 1, false) == enc_span(
                    *layout,
                    w,
                    first as int,
                    fi as int,
                    false,
                ) + piece(*layout, w, fi as int, false));
            }
        }
        cur = next;
        match pushed {
            Some(e) => {
                let ghost old_entries = entries@;
                let ghost ev = e;
                entries.push(e);
                proof {
                    let n = TagStructData { struct_index: si, sub_chunks: entries };
                    lemma_span_push(*layout, d, n, ev, first as int, fi as int, fi as int);
                    lemma_entry_push(old_entries, ev, fi as int);
                    assert(crate::data::entry_of(entries@, fi as int) == Some(old_entries.len() as int));
                    assert(entries@[old_entries.len() as int] == ev);
                    assert(piece(*layout, n, fi as int, false) == content_piece(*layout, ev.content, false));
                    assert(piece_fits(*layout, 0, n, fi as int, raw@.len() as int));
                    assert(piece_encodable(*layout, n, fi as int));
                    assert(enc_span(*layout, n, first as int, fi + 1, false) == enc_span(*layout, n, first as int, fi as int, false)
                        + piece(*layout, n, fi as int, false));
                    assert forall|g: int|
                        #![trigger layout.field_of_struct(s, g)]
                        first <= g < fi && layout.field_of_struct(s, g) implies {
                        &&& piece_fits(*layout, 0, n, g, raw@.len() as int)
                        &&& piece_encodable(*layout, n, g)
                    } by {
                        lemma_piece_push(*layout, d, n, ev, g);
                    }
                    assert(body@.subrange(pos as int, cur as int) =~= body@.subrange(pos as int, cur0 as int)
                        + body@.subrange(cur0 as int, cur as int));
                    assert forall|w: TagStructData|
                        #![trigger fields_decodable(*layout, raw@, w, engine)]
                        w.struct_index == si && fields_decodable(*layout, raw@, w, engine) && starts_with(
                            body@,
                            pos as int,
                            enc_fields(*layout, w, first as int, false),
                        ) implies fields_agree_below(*layout, raw@, n, fi + 1, endian) by {
                        assert forall|g: int|
                            #![trigger layout.field_of_struct(s, g)]
                            layout.field_of_struct(s, g) && g < fi + 1 implies match entry_of(n.sub_chunks@, g) {
                                Some(j) => 0 <= j < n.sub_chunks@.len() ==> content_agrees(
                                    *layout,
                                    raw@,
                                    g,
                                    n.sub_chunks@[j].content,
                                    endian,
                                ),
                                None => true,
                            } by {
                            lemma_entry_push(old_entries, ev, g);
                            lemma_entry_in_range(old_entries, g);
                            if g < fi {
                                assert(fields_agree_below(*layout, raw@, d, fi as int, endian));
                                assert(layout.field_of_struct(d.struct_index as int, g));
                                assert(d.sub_chunks@ == old_entries);
                                if let Some(j) = entry_of(old_entries, g) {
                                    assert(entry_of(n.sub_chunks@, g) == Some(j));
                                    assert(n.sub_chunks@[j] == old_entries[j]);
                                    if 0 <= j < old_entries.len() {
                                        assert(content_agrees(*layout, raw@, g, old_entries[j].content, endian));
                                    }
                                } else {
                                    assert(g as u32 != fi as u32);
                                    assert(entry_of(n.sub_chunks@, g) is None);
                                }
                            } else {
                                assert(g == fi);
                                assert(entry_of(n.sub_chunks@, g) == Some(old_entries.len() as int));
                                assert(n.sub_chunks@[old_entries.len() as int] == ev);
                                assert(content_agrees(*layout, raw@, fi as int, ev.content, endian));
                            }
                        }
                    }
                }
            },
            None => {
                proof {
                    assert(!trails(layout.fields@[fi as int].field_type));
                    assert(piece(*layout, d, fi as int, false) =~= Seq::<u8>::empty());
                    assert(enc_span(*layout, d, first as int, fi + 1, false) == enc_span(*layout, d, first as int, fi as int, false)
                        + piece(*layout, d, fi as int, false));
                    assert(cur == cur0);
                    assert(body@.subrange(pos as int, cur as int) =~= body@.subrange(pos as int, cur0 as int)
                        + Seq::<u8>::empty());
                    assert(crate::data::entry_of(entries@, fi as int) is None);
                }
            },
        }
        fi = fi + 1;
    }
    proof {
        let d = TagStructData { struct_index: si, sub_chunks: entries };
        lemma_fields_span(*layout, d, first as int, fi as int, false);
        assert forall|w: TagStructData|
            #![trigger fields_decodable(*layout, raw@, w, engine)]
            w.struct_index == si && fields_decodable(*layout, raw@, w, engine) && starts_with(
                body@,
                pos as int,
                enc_fields(*layout, w, first as int, false),
            ) implies cur == pos + enc_fields(*layout, w, first as int, false).len() && fields_agree(*layout, raw@, d, endian) by {
            lemma_fields_span(*layout, w, first as int, fi as int, false);
            assert forall|g: int|
                #![trigger layout.field_of_struct(s, g)]
                layout.field_of_struct(s, g) implies g < fi by {
                if g >= fi {
                    assert(layout.fields@[fi as int].field_type == TagFieldType::Terminator);
                }
            }
        }
    }
    Ok((entries, cur))
}

} // verus!
