//! Emitting a classic tag tree: count slots rewritten from the tree,
//! then fixed bytes and trailing data depth-first.
use vstd::prelude::*;

use super::image::{
    block_encodable, block_fixed, block_header, enc_block, enc_elems, enc_fields, fields_fit, piece, piece_encodable,
    piece_fits, put_bytes, run_stops, stored_element_size, struct_encodable, sync_elems, sync_fields, trails,
};
use crate::bytes::{u16_be_bytes, u32_bytes, u32_le_bytes, u32_to_be, u32_to_le, Endian};
use crate::data::{find_entry, TagBlockData, TagStructData, TagSubChunkContent};
use crate::fields::TagFieldType;
use crate::layout::{lemma_run_has_end, TagLayout};

verus! {

/// Write `bs` into `raw` at `at`.
fn put_slot(raw: &mut Vec<u8>, at: usize, bs: &[u8])
    requires
        at + bs@.len() <= old(raw)@.len(),
    ensures
        final(raw)@ == put_bytes(old(raw)@, at as int, bs@),
{
    let n = raw.len();
    let mut k: usize = 0;
    while k < bs.len()
        invariant
            k <= bs@.len(),
            n == raw@.len(),
            at + bs@.len() <= raw@.len(),
            raw@.len() == old(raw)@.len(),
            forall|i: int|
                0 <= i < raw@.len() ==> #[trigger] raw@[i] == if at <= i < at + k {
                    bs@[i - at]
                } else {
                    old(raw)@[i]
                },
        decreases bs@.len() - k,
    {
        raw.set(at + k, bs[k]);
        k = k + 1;
    }
    assert(raw@ =~= put_bytes(old(raw)@, at as int, bs@));
}

/// Bytes of `v` in byte order `e`.
fn u32_in(v: u32, e: Endian) -> (r: [u8; 4])
    ensures
        r@ == u32_bytes(v, e),
{
    match e {
        Endian::Le => u32_to_le(v),
        Endian::Be => u32_to_be(v),
    }
}

/// Big-endian bytes of `v`.
fn u16_to_be(v: u16) -> (r: [u8; 2])
    ensures
        r@ == u16_be_bytes(v),
{
    assert((v >> 8) as u8 == (v / 256) as u8) by (bit_vector);
    assert((v & 0xFF) as u8 == (v % 256) as u8) by (bit_vector);
    let r = [(v >> 8) as u8, (v & 0xFF) as u8];
    assert(r@ =~= u16_be_bytes(v));
    r
}

/// Rewrite the count slots of `elem`, whose fixed bytes start at `base`
/// in `raw`, from the tree (see [`sync_fields`]).
pub(crate) fn sync_fixed_counts(layout: &TagLayout, raw: &mut Vec<u8>, base: usize, elem: &TagStructData, e: Endian, Ghost(
    lim,
): Ghost<int>)
    requires
        layout.wf(),
        fields_fit(*layout, base as int, *elem, lim),
        lim <= old(raw)@.len(),
    ensures
        final(raw)@ == sync_fields(
            *layout,
            old(raw)@,
            base as int,
            *elem,
            layout.struct_layouts@[elem.struct_index as int].first_field_index as int,
            e,
        ),
        final(raw)@.len() == old(raw)@.len(),
    decreases elem,
{
    let raw_len = raw.len();
    let ghost s = elem.struct_index as int;
    let first = layout.struct_layouts[elem.struct_index as usize].first_field_index as usize;
    let ghost t = lemma_run_has_end(layout, s, first as int);
    let mut fi = first;
    while layout.fields[fi].field_type != TagFieldType::Terminator
        invariant
            layout.wf(),
            fields_fit(*layout, base as int, *elem, lim),
            lim <= raw@.len(),
            raw@.len() == old(raw)@.len(),
            raw_len == raw@.len(),
            s == elem.struct_index,
            first == layout.first_field(s),
            first <= fi <= t < layout.fields@.len(),
            layout.fields@[t].field_type == TagFieldType::Terminator,
            layout.no_terminator_between(first as int, fi as int),
            sync_fields(*layout, old(raw)@, base as int, *elem, first as int, e) == sync_fields(
                *layout,
                raw@,
                base as int,
                *elem,
                fi as int,
                e,
            ),
        decreases t - fi,
    {
        proof {
            assert(layout.field_of_struct(s, fi as int));
            assert(piece_fits(*layout, base as int, *elem, fi as int, lim));
        }
        let field = &layout.fields[fi];
        match find_entry(&elem.sub_chunks, fi) {
            Some(j) => {
                match (field.field_type, &elem.sub_chunks[j].content) {
                    (TagFieldType::Block, TagSubChunkContent::Block(b)) => {
                        let off = base + field.offset as usize;
                        let bs = u32_in(#[verifier::truncate] (b.elements.len() as u32), e);
                        put_slot(raw, off, &bs);
                    },
                    (TagFieldType::Data, TagSubChunkContent::Data(p)) => {
                        let off = base + field.offset as usize;
                        let bs = u32_in(#[verifier::truncate] (p.len() as u32), e);
                        put_slot(raw, off, &bs);
                    },
                    (TagFieldType::TagReference, TagSubChunkContent::TagReference(p)) => {
                        let off = base + field.offset as usize;
                        if p.len() >= 4 {
                            let group = vstd::slice::slice_subrange(p.as_slice(), 0, 4);
                            put_slot(raw, off, group);
                        }
                        let path_len = if p.len() >= 5 {
                            p.len() - 5
                        } else {
                            0
                        };
                        let bs = u32_in(#[verifier::truncate] (path_len as u32), e);
                        put_slot(raw, off + 8, &bs);
                    },
                    (TagFieldType::StringId, TagSubChunkContent::StringId(text)) => {
                        let off = base + field.offset as usize;
                        let bs = u16_to_be(#[verifier::truncate] (text.len() as u16));
                        put_slot(raw, off + 2, &bs);
                    },
                    (TagFieldType::Struct, TagSubChunkContent::Struct(child)) => {
                        let off = base + field.offset as usize;
                        let ghost child_lim = off + layout.struct_layouts@[child.struct_index as int].size;
                        sync_fixed_counts(layout, raw, off, child, e, Ghost(child_lim));
                    },
                    (TagFieldType::Array, TagSubChunkContent::Array(els)) => {
                        let off = base + field.offset as usize;
                        let ghost def = field.definition as int;
                        proof {
                            assert(layout.field_refs_valid(fi as int));
                        }
                        let asi = layout.array_layouts[field.definition as usize].struct_index;
                        let es = layout.struct_layouts[asi as usize].size;
                        let ghost before = raw@;
                        let mut k: usize = 0;
                        while k < els.len()
                            invariant
                                layout.wf(),
                                k <= els@.len(),
                                es == layout.array_element_size(def),
                                off + els@.len() * es <= lim,
                                lim <= raw@.len(),
                                raw@.len() == old(raw)@.len(),
                                raw_len == raw@.len(),
                                j < elem.sub_chunks@.len(),
                                elem.sub_chunks@[j as int].content == TagSubChunkContent::Array(*els),
                                forall|q: int|
                                    0 <= q < els@.len() ==> {
                                        &&& (#[trigger] els@[q]).struct_index < layout.struct_layouts@.len()
                                        &&& fields_fit(*layout, off + q * es, els@[q], off + (q + 1) * es)
                                    },
                                raw@ == sync_elems(*layout, before, off as int, els@, es as int, k as int, e),
                            decreases els@.len() - k,
                        {
                            proof {
                                assert(off + (k + 1) * es <= off + els@.len() * es) by (nonlinear_arith)
                                    requires
                                        k < els@.len(),
                                ;
                                assert(off + k * es + es == off + (k + 1) * es) by (nonlinear_arith);
                            }
                            let at = off + k * es;
                            let ghost elem_lim = off + (k + 1) * es;
                            assert(fields_fit(*layout, at as int, els@[k as int], elem_lim));
                            proof {
                                assert(decreases_to!(*elem => elem.sub_chunks@[j as int].content));
                                assert(decreases_to!(elem.sub_chunks@[j as int].content => elem.sub_chunks@[j as int].content->Array_0));
                                assert(decreases_to!(*els => els@[k as int]));
                            }
                            sync_fixed_counts(layout, raw, at, &els[k], e, Ghost(elem_lim));
                            k = k + 1;
                        }
                    },
                    _ => {},
                }
            },
            None => {},
        }
        fi = fi + 1;
    }
}

/// Append a block as emitted: its Halo 2 header with the count
/// rewritten, its fixed bytes with every element's count slots
/// rewritten, then each element's trailing data.
pub(crate) fn encode_block(layout: &TagLayout, block: &TagBlockData, out: &mut Vec<u8>)
    requires
        layout.wf(),
        block_encodable(*layout, *block),
    ensures
        final(out)@ == old(out)@ + enc_block(*layout, *block, true),
    decreases block,
{
    let n = block.elements.len();
    let sz = if n > 0 {
        block.raw_data.len() / n
    } else {
        0
    };
    assert(sz == stored_element_size(*block));
    let mut raw = vstd::slice::slice_to_vec(block.raw_data.as_slice());
    if sz > 0 {
        proof {
            assert(n * sz <= block.raw_data@.len()) by (nonlinear_arith)
                requires
                    n > 0,
                    sz == (block.raw_data@.len() as int) / (n as int),
            ;
        }
        let raw_len = raw.len();
        let mut i: usize = 0;
        while i < n
            invariant
                layout.wf(),
                block_encodable(*layout, *block),
                n == block.elements@.len(),
                sz == stored_element_size(*block),
                sz > 0,
                n * sz <= raw@.len(),
                raw_len == raw@.len(),
                i <= n,
                raw@ == sync_elems(*layout, block.raw_data@, 0, block.elements@, sz as int, i as int, block.endian),
            decreases n - i,
        {
            proof {
                assert((i + 1) * sz <= n * sz) by (nonlinear_arith)
                    requires
                        i < n,
                ;
                assert(i * sz + sz == (i + 1) * sz) by (nonlinear_arith);
                assert(fields_fit(*layout, i * sz, block.elements@[i as int], (i + 1) * sz));
            }
            sync_fixed_counts(layout, &mut raw, i * sz, &block.elements[i], block.endian, Ghost((i + 1) * sz));
            i = i + 1;
        }
    }
    assert(raw@ == block_fixed(*layout, *block, true));
    let ghost start = out@;
    match &block.classic_block_header {
        Some(h) => {
            let mut header = vstd::slice::slice_to_vec(h.as_slice());
            let count = u32_to_le(#[verifier::truncate] (n as u32));
            put_slot(&mut header, 8, &count);
            out.extend_from_slice(header.as_slice());
        },
        None => {},
    }
    assert(out@ =~= start + block_header(*block, true));
    let ghost mid = out@;
    out.extend_from_slice(raw.as_slice());
    assert(out@ =~= mid + block_fixed(*layout, *block, true));
    let ghost fixed_end = out@;
    let mut i: usize = 0;
    assert(enc_elems(*layout, block.elements@, 0, true) =~= Seq::<u8>::empty());
    while i < n
        invariant
            layout.wf(),
            block_encodable(*layout, *block),
            n == block.elements@.len(),
            i <= n,
            out@ == fixed_end + enc_elems(*layout, block.elements@, i as int, true),
        decreases n - i,
    {
        proof {
            assert(struct_encodable(*layout, block.elements@[i as int]));
            assert(decreases_to!(*block => block.elements@[i as int]));
        }
        let ghost before = out@;
        encode_struct_trailing(layout, &block.elements[i], out);
        assert(out@ =~= fixed_end + enc_elems(*layout, block.elements@, i + 1, true));
        i = i + 1;
    }
    assert(out@ =~= old(out)@ + enc_block(*layout, *block, true));
}

/// Append the trailing data of every field of `elem`, in field order.
pub(crate) fn encode_struct_trailing(layout: &TagLayout, elem: &TagStructData, out: &mut Vec<u8>)
    requires
        layout.wf(),
        struct_encodable(*layout, *elem),
    ensures
        final(out)@ == old(out)@ + enc_fields(
            *layout,
            *elem,
            layout.struct_layouts@[elem.struct_index as int].first_field_index as int,
            true,
        ),
    decreases elem,
{
    let ghost s = elem.struct_index as int;
    let first = layout.struct_layouts[elem.struct_index as usize].first_field_index as usize;
    let ghost t = lemma_run_has_end(layout, s, first as int);
    let mut fi = first;
    while layout.fields[fi].field_type != TagFieldType::Terminator
        invariant
            layout.wf(),
            struct_encodable(*layout, *elem),
            s == elem.struct_index,
            first == layout.first_field(s),
            first <= fi <= t < layout.fields@.len(),
            layout.fields@[t].field_type == TagFieldType::Terminator,
            layout.no_terminator_between(first as int, fi as int),
            old(out)@ + enc_fields(*layout, *elem, first as int, true) == out@ + enc_fields(
                *layout,
                *elem,
                fi as int,
                true,
            ),
        decreases t - fi,
    {
        proof {
            assert(layout.field_of_struct(s, fi as int));
            assert(piece_encodable(*layout, *elem, fi as int));
        }
        let ghost before = out@;
        let t_fi = layout.fields[fi].field_type;
        let trailing = match t_fi {
            TagFieldType::Block | TagFieldType::Data | TagFieldType::TagReference | TagFieldType::StringId
            | TagFieldType::Struct | TagFieldType::Array => true,
            _ => false,
        };
        if trailing {
            match find_entry(&elem.sub_chunks, fi) {
                Some(j) => {
                    match &elem.sub_chunks[j].content {
                        TagSubChunkContent::Block(b) => {
                            proof {
                                assert(decreases_to!(*elem => elem.sub_chunks@[j as int].content));
                                assert(decreases_to!(elem.sub_chunks@[j as int].content => elem.sub_chunks@[j as int].content->Block_0));
                            }
                            encode_block(layout, b, out);
                        },
                        TagSubChunkContent::Data(p) => {
                            out.extend_from_slice(p.as_slice());
                        },
                        TagSubChunkContent::TagReference(p) => {
                            if p.len() > 4 {
                                let path = vstd::slice::slice_subrange(p.as_slice(), 4, p.len());
                                assert(path@ =~= p@.skip(4));
                                out.extend_from_slice(path);
                            }
                        },
                        TagSubChunkContent::StringId(text) => {
                            out.extend_from_slice(text.as_slice());
                        },
                        TagSubChunkContent::Struct(child) => {
                            proof {
                                assert(decreases_to!(*elem => elem.sub_chunks@[j as int].content));
                                assert(decreases_to!(elem.sub_chunks@[j as int].content => elem.sub_chunks@[j as int].content->Struct_0));
                            }
                            encode_struct_trailing(layout, child, out);
                        },
                        TagSubChunkContent::Array(els) => {
                            let mut k: usize = 0;
                            assert(enc_elems(*layout, els@, 0, true) =~= Seq::<u8>::empty());
                            while k < els.len()
                                invariant
                                    layout.wf(),
                                    k <= els@.len(),
                                    j < elem.sub_chunks@.len(),
                                    elem.sub_chunks@[j as int].content == TagSubChunkContent::Array(*els),
                                    forall|q: int| 0 <= q < els@.len() ==> struct_encodable(*layout, #[trigger] els@[q]),
                                    out@ == before + enc_elems(*layout, els@, k as int, true),
                                decreases els@.len() - k,
                            {
                                proof {
                                    assert(struct_encodable(*layout, els@[k as int]));
                                    assert(decreases_to!(*elem => elem.sub_chunks@[j as int].content));
                                    assert(decreases_to!(elem.sub_chunks@[j as int].content => elem.sub_chunks@[j as int].content->Array_0));
                                }
                                encode_struct_trailing(layout, &els[k], out);
                                assert(out@ =~= before + enc_elems(*layout, els@, k + 1, true));
                                k = k + 1;
                            }
                        },
                        _ => {},
                    }
                },
                None => {},
            }
        }
        assert(out@ =~= before + piece(*layout, *elem, fi as int, true));
        fi = fi + 1;
    }
}

} // verus!
