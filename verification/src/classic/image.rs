//! The on-disk image of a classic tag tree: the bytes the encoder emits
//! for a block, a struct's trailing data, and the inline count slots it
//! rewrites from the tree before emitting fixed bytes.
use vstd::prelude::*;

use crate::bytes::{u16_be_bytes, u32_bytes, u32_le_bytes, Endian};
use crate::data::{entry_of, TagBlockData, TagStructData, TagSubChunkContent};
use crate::fields::TagFieldType;
use crate::layout::TagLayout;

verus! {

/// Field types whose payload trails the fixed bytes.
pub open spec fn trails(t: TagFieldType) -> bool {
    t == TagFieldType::Block || t == TagFieldType::Data || t == TagFieldType::TagReference || t
        == TagFieldType::StringId || t == TagFieldType::Struct || t == TagFieldType::Array
}

/// Field `fi` ends its struct's run (a terminator, or past the table).
pub open spec fn run_stops(layout: TagLayout, fi: int) -> bool {
    fi < 0 || fi >= layout.fields@.len() || layout.fields@[fi].field_type == TagFieldType::Terminator
}

/// `raw` with `bs` written at `at`.
pub open spec fn put_bytes(raw: Seq<u8>, at: int, bs: Seq<u8>) -> Seq<u8> {
    raw.subrange(0, at) + bs + raw.subrange(at + bs.len(), raw.len() as int)
}

/// Length of a tag-reference payload's path, NUL excluded (the payload
/// is the group tag, the path and a NUL).
pub open spec fn path_len(p: Seq<u8>) -> int {
    if p.len() >= 5 {
        p.len() - 5
    } else {
        0
    }
}

//================================================================================
// Inline count slots
//================================================================================

/// The fixed bytes `raw` after rewriting, from the tree `d` whose bytes
/// start at `base`, the count slots of fields `fi..` of its struct: a
/// block's element count, a data blob's size, a tag reference's group
/// and path length, a string id's length; nested structs and array
/// elements in turn.
pub open spec fn sync_fields(layout: TagLayout, raw: Seq<u8>, base: int, d: TagStructData, fi: int, e: Endian) -> Seq<
    u8,
>
    decreases d, layout.fields@.len() - fi,
{
    if run_stops(layout, fi) {
        raw
    } else {
        let f = layout.fields@[fi];
        let off = base + f.offset;
        let raw1 = match entry_of(d.sub_chunks@, fi) {
            Some(j) => {
                if 0 <= j < d.sub_chunks@.len() {
                    match (f.field_type, d.sub_chunks@[j].content) {
                        (TagFieldType::Block, TagSubChunkContent::Block(b)) => put_bytes(
                            raw,
                            off,
                            u32_bytes(b.elements@.len() as u32, e),
                        ),
                        (TagFieldType::Data, TagSubChunkContent::Data(p)) => put_bytes(
                            raw,
                            off,
                            u32_bytes(p@.len() as u32, e),
                        ),
                        (TagFieldType::TagReference, TagSubChunkContent::TagReference(p)) => {
                            let r1 = if p@.len() >= 4 {
                                put_bytes(raw, off, p@.subrange(0, 4))
                            } else {
                                raw
                            };
                            put_bytes(r1, off + 8, u32_bytes(path_len(p@) as u32, e))
                        },
                        (TagFieldType::StringId, TagSubChunkContent::StringId(s)) => put_bytes(
                            raw,
                            off + 2,
                            u16_be_bytes(s@.len() as u16),
                        ),
                        (TagFieldType::Struct, TagSubChunkContent::Struct(child)) => sync_fields(
                            layout,
                            raw,
                            off,
                            child,
                            layout.struct_layouts@[child.struct_index as int].first_field_index as int,
                            e,
                        ),
                        (TagFieldType::Array, TagSubChunkContent::Array(els)) => sync_elems(
                            layout,
                            raw,
                            off,
                            els@,
                            layout.array_element_size(f.definition as int),
                            els@.len() as int,
                            e,
                        ),
                        _ => raw,
                    }
                } else {
                    raw
                }
            },
            None => raw,
        };
        sync_fields(layout, raw1, base, d, fi + 1, e)
    }
}

/// `raw` after syncing elements `0..n` of `els`, element `k` at
/// `base + k * size`.
pub open spec fn sync_elems(
    layout: TagLayout,
    raw: Seq<u8>,
    base: int,
    els: Seq<TagStructData>,
    size: int,
    n: int,
    e: Endian,
) -> Seq<u8>
    decreases els, n,
{
    if n <= 0 || n > els.len() {
        raw
    } else {
        let r = sync_elems(layout, raw, base, els, size, n - 1, e);
        sync_fields(
            layout,
            r,
            base + (n - 1) * size,
            els[n - 1],
            layout.struct_layouts@[els[n - 1].struct_index as int].first_field_index as int,
            e,
        )
    }
}

//================================================================================
// Emitted bytes
//================================================================================

/// The trailing bytes of a sub-chunk payload: a blob, a path, string-id
/// text, a nested block, or the trailing bytes of a nested struct or of
/// array elements. With `synced`, nested blocks carry rewritten counts;
/// without, their bytes as stored.
pub open spec fn content_piece(layout: TagLayout, c: TagSubChunkContent, synced: bool) -> Seq<u8>
    decreases c, 0int,
{
    match c {
        TagSubChunkContent::Block(b) => enc_block(layout, b, synced),
        TagSubChunkContent::Data(p) => p@,
        TagSubChunkContent::TagReference(p) => if p@.len() > 4 {
            p@.skip(4)
        } else {
            Seq::empty()
        },
        TagSubChunkContent::StringId(s) => s@,
        TagSubChunkContent::Struct(child) => enc_fields(
            layout,
            child,
            layout.struct_layouts@[child.struct_index as int].first_field_index as int,
            synced,
        ),
        TagSubChunkContent::Array(els) => enc_elems(layout, els@, els@.len() as int, synced),
        _ => Seq::empty(),
    }
}

/// The trailing bytes of field `fi` of `d`; nothing for fields whose
/// type carries no trailing data.
pub open spec fn piece(layout: TagLayout, d: TagStructData, fi: int, synced: bool) -> Seq<u8>
    decreases d, 0int,
{
    if 0 <= fi < layout.fields@.len() && trails(layout.fields@[fi].field_type) {
        match entry_of(d.sub_chunks@, fi) {
            Some(j) => if 0 <= j < d.sub_chunks@.len() {
                content_piece(layout, d.sub_chunks@[j].content, synced)
            } else {
                Seq::empty()
            },
            None => Seq::empty(),
        }
    } else {
        Seq::empty()
    }
}

/// The trailing bytes of fields `fi..` of `d`, up to the struct's
/// terminator.
pub open spec fn enc_fields(layout: TagLayout, d: TagStructData, fi: int, synced: bool) -> Seq<u8>
    decreases d, layout.fields@.len() - fi,
{
    if run_stops(layout, fi) {
        Seq::empty()
    } else {
        piece(layout, d, fi, synced) + enc_fields(layout, d, fi + 1, synced)
    }
}

/// The trailing bytes of elements `0..n` of `els`, in order.
pub open spec fn enc_elems(layout: TagLayout, els: Seq<TagStructData>, n: int, synced: bool) -> Seq<u8>
    decreases els, n,
{
    if n <= 0 || n > els.len() {
        Seq::empty()
    } else {
        enc_elems(layout, els, n - 1, synced) + enc_fields(
            layout,
            els[n - 1],
            layout.struct_layouts@[els[n - 1].struct_index as int].first_field_index as int,
            synced,
        )
    }
}

/// Bytes per element of a block as stored.
pub open spec fn stored_element_size(b: TagBlockData) -> int {
    if b.elements@.len() > 0 {
        (b.raw_data@.len() as int) / (b.elements@.len() as int)
    } else {
        0
    }
}

/// A block's fixed bytes; with `synced`, every element's count slots
/// rewritten.
pub open spec fn block_fixed(layout: TagLayout, b: TagBlockData, synced: bool) -> Seq<u8> {
    if synced && stored_element_size(b) > 0 {
        sync_elems(
            layout,
            b.raw_data@,
            0,
            b.elements@,
            stored_element_size(b),
            b.elements@.len() as int,
            b.endian,
        )
    } else {
        b.raw_data@
    }
}

/// A block's Halo 2 header; with `synced`, its count (offset 8) set to
/// the element count.
pub open spec fn block_header(b: TagBlockData, synced: bool) -> Seq<u8> {
    match b.classic_block_header {
        Some(h) => if synced {
            put_bytes(h@, 8, u32_le_bytes(b.elements@.len() as u32))
        } else {
            h@
        },
        None => Seq::empty(),
    }
}

/// A block as emitted: its header, its fixed bytes, then each
/// element's trailing bytes in element order.
pub open spec fn enc_block(layout: TagLayout, b: TagBlockData, synced: bool) -> Seq<u8>
    decreases b, 0int,
{
    block_header(b, synced) + block_fixed(layout, b, synced) + enc_elems(
        layout,
        b.elements@,
        b.elements@.len() as int,
        synced,
    )
}

//================================================================================
// What the encoder needs
//================================================================================

/// The count slots of a payload `c` of a field of type `t` and
/// definition `def` whose slot starts at `off`, and the regions of a
/// nested struct or array elements, lie before `lim`.
pub open spec fn content_fits(layout: TagLayout, off: int, t: TagFieldType, def: u32, c: TagSubChunkContent, lim: int) -> bool
    decreases c, 0int,
{
    match (t, c) {
        (TagFieldType::Block, TagSubChunkContent::Block(_)) => off + 4 <= lim,
        (TagFieldType::Data, TagSubChunkContent::Data(_)) => off + 4 <= lim,
        (TagFieldType::StringId, TagSubChunkContent::StringId(_)) => off + 4 <= lim,
        (TagFieldType::TagReference, TagSubChunkContent::TagReference(_)) => off + 12 <= lim,
        (TagFieldType::Struct, TagSubChunkContent::Struct(child)) => {
            &&& child.struct_index < layout.struct_layouts@.len()
            &&& off + layout.struct_layouts@[child.struct_index as int].size <= lim
            &&& fields_fit(layout, off, child, off + layout.struct_layouts@[child.struct_index as int].size)
        },
        (TagFieldType::Array, TagSubChunkContent::Array(els)) => {
            let es = layout.array_element_size(def as int);
            &&& off + els@.len() * es <= lim
            &&& forall|k: int|
                0 <= k < els@.len() ==> {
                    &&& (#[trigger] els@[k]).struct_index < layout.struct_layouts@.len()
                    &&& fields_fit(layout, off + k * es, els@[k], off + (k + 1) * es)
                }
        },
        _ => true,
    }
}

/// The count slots of field `fi` of `d` (its fixed bytes at `base`)
/// and its nested regions lie before `lim`.
pub open spec fn piece_fits(layout: TagLayout, base: int, d: TagStructData, fi: int, lim: int) -> bool
    decreases d, 0int,
{
    match entry_of(d.sub_chunks@, fi) {
        Some(j) => if 0 <= j < d.sub_chunks@.len() && 0 <= fi < layout.fields@.len() {
            content_fits(
                layout,
                base + layout.fields@[fi].offset,
                layout.fields@[fi].field_type,
                layout.fields@[fi].definition,
                d.sub_chunks@[j].content,
                lim,
            )
        } else {
            true
        },
        None => true,
    }
}

/// Every field of `d` fits its region `[base, lim)` (see [`piece_fits`]).
pub open spec fn fields_fit(layout: TagLayout, base: int, d: TagStructData, lim: int) -> bool
    decreases d, 1int,
{
    &&& d.struct_index < layout.struct_layouts@.len()
    &&& forall|g: int|
        #![trigger layout.field_of_struct(d.struct_index as int, g)]
        layout.field_of_struct(d.struct_index as int, g) ==> piece_fits(layout, base, d, g, lim)
}

/// The nested data of a payload can be emitted.
pub open spec fn content_encodable(layout: TagLayout, c: TagSubChunkContent) -> bool
    decreases c, 0int,
{
    match c {
        TagSubChunkContent::Block(b) => block_encodable(layout, b),
        TagSubChunkContent::Struct(child) => struct_encodable(layout, child),
        TagSubChunkContent::Array(els) => forall|k: int| 0 <= k < els@.len() ==> struct_encodable(layout, #[trigger] els@[k]),
        _ => true,
    }
}

/// The nested data of field `fi` of `d` can be emitted.
pub open spec fn piece_encodable(layout: TagLayout, d: TagStructData, fi: int) -> bool
    decreases d, 0int,
{
    match entry_of(d.sub_chunks@, fi) {
        Some(j) => if 0 <= j < d.sub_chunks@.len() {
            content_encodable(layout, d.sub_chunks@[j].content)
        } else {
            true
        },
        None => true,
    }
}

/// A struct's nested data can be emitted: its struct index is valid and
/// so is everything under its fields.
pub open spec fn struct_encodable(layout: TagLayout, d: TagStructData) -> bool
    decreases d, 1int,
{
    &&& d.struct_index < layout.struct_layouts@.len()
    &&& forall|g: int|
        #![trigger layout.field_of_struct(d.struct_index as int, g)]
        layout.field_of_struct(d.struct_index as int, g) ==> piece_encodable(layout, d, g)
}

/// A block can be emitted: a Halo 2 header has its count word, every
/// element can be emitted, and when elements have bytes each one's
/// slots fit its record.
pub open spec fn block_encodable(layout: TagLayout, b: TagBlockData) -> bool
    decreases b, 2int,
{
    let sz = stored_element_size(b);
    &&& b.classic_block_header matches Some(h) ==> h@.len() >= 12
    &&& forall|k: int|
        0 <= k < b.elements@.len() ==> {
            &&& struct_encodable(layout, #[trigger] b.elements@[k])
            &&& sz > 0 ==> fields_fit(layout, k * sz, b.elements@[k], (k + 1) * sz)
        }
}

//================================================================================
// Lemmas the decoder uses
//================================================================================

/// The pieces of fields `a..b` of `d`, in order.
pub open spec fn enc_span(layout: TagLayout, d: TagStructData, a: int, b: int, synced: bool) -> Seq<u8>
    decreases b - a,
{
    if b <= a {
        Seq::empty()
    } else {
        enc_span(layout, d, a, b - 1, synced) + piece(layout, d, b - 1, synced)
    }
}

/// Splitting a span at its first field.
proof fn lemma_span_front(layout: TagLayout, d: TagStructData, a: int, b: int, synced: bool)
    requires
        a < b,
    ensures
        enc_span(layout, d, a, b, synced) == piece(layout, d, a, synced) + enc_span(layout, d, a + 1, b, synced),
    decreases b - a,
{
    if a + 1 < b {
        lemma_span_front(layout, d, a, b - 1, synced);
        assert(enc_span(layout, d, a, b, synced) =~= piece(layout, d, a, synced) + enc_span(layout, d, a + 1, b, synced));
    } else {
        assert(enc_span(layout, d, a, a, synced) =~= Seq::<u8>::empty());
        assert(enc_span(layout, d, a + 1, b, synced) =~= Seq::<u8>::empty());
        assert(enc_span(layout, d, a, b, synced) =~= piece(layout, d, a, synced) + enc_span(layout, d, a + 1, b, synced));
    }
}

/// The trailing bytes of a struct's fields from `a` are the span up to
/// its terminator `t`.
pub proof fn lemma_fields_span(layout: TagLayout, d: TagStructData, a: int, t: int, synced: bool)
    requires
        0 <= a <= t < layout.fields@.len(),
        layout.fields@[t].field_type == TagFieldType::Terminator,
        layout.no_terminator_between(a, t),
    ensures
        enc_fields(layout, d, a, synced) == enc_span(layout, d, a, t, synced),
    decreases t - a,
{
    if a < t {
        assert(layout.fields@[a].field_type != TagFieldType::Terminator);
        lemma_fields_span(layout, d, a + 1, t, synced);
        lemma_span_front(layout, d, a, t, synced);
    } else {
        assert(enc_span(layout, d, a, t, synced) =~= Seq::<u8>::empty());
    }
}

/// Pushing a sub-chunk leaves every earlier lookup as it was; a lookup
/// that found nothing finds the new one when it owns the field.
pub proof fn lemma_entry_push(subs: Seq<crate::data::TagSubChunkEntry>, e: crate::data::TagSubChunkEntry, g: int)
    ensures
        entry_of(subs.push(e), g) == if entry_of(subs, g) is Some {
            entry_of(subs, g)
        } else if e.field_index == Some(g as u32) {
            Some(subs.len() as int)
        } else {
            None
        },
{
    lemma_entry_from_push(subs, e, 0, g);
}

proof fn lemma_entry_from_push(subs: Seq<crate::data::TagSubChunkEntry>, e: crate::data::TagSubChunkEntry, k: int, g: int)
    requires
        0 <= k,
    ensures
        crate::data::entry_from(subs.push(e), k, g) == if crate::data::entry_from(subs, k, g) is Some {
            crate::data::entry_from(subs, k, g)
        } else if e.field_index == Some(g as u32) && k <= subs.len() {
            Some(subs.len() as int)
        } else {
            None
        },
    decreases subs.len() + 1 - k,
{
    if k < subs.len() {
        assert(subs.push(e)[k] == subs[k]);
        lemma_entry_from_push(subs, e, k + 1, g);
    } else if k == subs.len() {
        assert(subs.push(e)[k] == e);
        assert(crate::data::entry_from(subs.push(e), k + 1, g) is None);
    }
}

/// A lookup result of `entry_of` indexes the sequence.
pub proof fn lemma_entry_in_range(subs: Seq<crate::data::TagSubChunkEntry>, g: int)
    ensures
        entry_of(subs, g) matches Some(j) ==> 0 <= j < subs.len() && subs[j].field_index == Some(g as u32),
{
    lemma_entry_from_in_range(subs, 0, g);
}

proof fn lemma_entry_from_in_range(subs: Seq<crate::data::TagSubChunkEntry>, k: int, g: int)
    requires
        0 <= k,
    ensures
        crate::data::entry_from(subs, k, g) matches Some(j) ==> k <= j < subs.len() && subs[j].field_index == Some(
            g as u32,
        ),
    decreases subs.len() - k,
{
    if k < subs.len() && subs[k].field_index != Some(g as u32) {
        lemma_entry_from_in_range(subs, k + 1, g);
    }
}

/// A field whose lookup is unchanged by a push reads the same before and
/// after it.
pub proof fn lemma_piece_push(layout: TagLayout, d: TagStructData, n: TagStructData, e: crate::data::TagSubChunkEntry, g: int)
    requires
        n.struct_index == d.struct_index,
        n.sub_chunks@ == d.sub_chunks@.push(e),
        e.field_index != Some(g as u32),
    ensures
        piece(layout, n, g, false) == piece(layout, d, g, false),
        forall|base: int, lim: int| piece_fits(layout, base, n, g, lim) == piece_fits(layout, base, d, g, lim),
        piece_encodable(layout, n, g) == piece_encodable(layout, d, g),
{
    lemma_entry_push(d.sub_chunks@, e, g);
    lemma_entry_in_range(d.sub_chunks@, g);
    if let Some(j) = entry_of(d.sub_chunks@, g) {
        assert(n.sub_chunks@[j] == d.sub_chunks@[j]);
    }
}

/// Pushing a sub-chunk for a field at or after `b` leaves the span
/// `a..b` as it was.
pub proof fn lemma_span_push(layout: TagLayout, d: TagStructData, n: TagStructData, e: crate::data::TagSubChunkEntry, a: int, b: int, f: int)
    requires
        n.struct_index == d.struct_index,
        n.sub_chunks@ == d.sub_chunks@.push(e),
        e.field_index == Some(f as u32),
        0 <= a,
        b <= f <= u32::MAX,
    ensures
        enc_span(layout, n, a, b, false) == enc_span(layout, d, a, b, false),
    decreases b - a,
{
    if a < b {
        lemma_span_push(layout, d, n, e, a, b - 1, f);
        assert(0 <= b - 1 < f);
        lemma_piece_push(layout, d, n, e, b - 1);
    }
}

/// Fitting a region is invariant under shifting it.
pub proof fn lemma_fields_fit_shift(layout: TagLayout, base: int, d: TagStructData, lim: int, c: int)
    requires
        fields_fit(layout, base, d, lim),
    ensures
        fields_fit(layout, base + c, d, lim + c),
    decreases d, 1int,
{
    assert forall|g: int|
        #![trigger layout.field_of_struct(d.struct_index as int, g)]
        layout.field_of_struct(d.struct_index as int, g) implies piece_fits(layout, base + c, d, g, lim + c) by {
        lemma_piece_fits_shift(layout, base, d, g, lim, c);
    }
}

proof fn lemma_piece_fits_shift(layout: TagLayout, base: int, d: TagStructData, fi: int, lim: int, c: int)
    requires
        piece_fits(layout, base, d, fi, lim),
    ensures
        piece_fits(layout, base + c, d, fi, lim + c),
    decreases d, 0int,
{
    if let Some(j) = entry_of(d.sub_chunks@, fi) {
        if 0 <= j < d.sub_chunks@.len() && 0 <= fi < layout.fields@.len() {
            let f = layout.fields@[fi];
            lemma_content_fits_shift(layout, base + f.offset, f.field_type, f.definition, d.sub_chunks@[j].content, lim, c);
        }
    }
}

/// See [`lemma_fields_fit_shift`].
pub proof fn lemma_content_fits_shift(layout: TagLayout, off: int, t: TagFieldType, def: u32, content: TagSubChunkContent, lim: int, c: int)
    requires
        content_fits(layout, off, t, def, content, lim),
    ensures
        content_fits(layout, off + c, t, def, content, lim + c),
    decreases content, 0int,
{
    match (t, content) {
        (TagFieldType::Struct, TagSubChunkContent::Struct(child)) => {
            let size = layout.struct_layouts@[child.struct_index as int].size;
            lemma_fields_fit_shift(layout, off, child, off + size, c);
            assert(off + c + size == off + size + c);
        },
        (TagFieldType::Array, TagSubChunkContent::Array(els)) => {
            let es = layout.array_element_size(def as int);
            assert forall|k: int| 0 <= k < els@.len() implies {
                &&& (#[trigger] els@[k]).struct_index < layout.struct_layouts@.len()
                &&& fields_fit(layout, off + c + k * es, els@[k], off + c + (k + 1) * es)
            } by {
                lemma_fields_fit_shift(layout, off + k * es, els@[k], off + (k + 1) * es, c);
                assert(off + k * es + c == off + c + k * es);
                assert(off + (k + 1) * es + c == off + c + (k + 1) * es);
            }
        },
        _ => {},
    }
}

} // verus!
