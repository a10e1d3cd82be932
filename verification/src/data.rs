//! Tag data tree: the per-tag instance values shaped by a layout.
//!
//! Byte ownership is per block. Each [`TagBlockData`] owns one `raw_data`
//! buffer holding its elements' bytes back to back; nested structs,
//! inline arrays and resource structs are offset regions inside the
//! enclosing block's buffer and own no bytes. A nested block starts a
//! fresh buffer of its own.
use vstd::prelude::*;

use crate::bytes::Endian;
use crate::fields::TagFieldType;
use crate::layout::TagLayout;

verus! {

/// A struct instance: its definition and the sub-chunks (nested
/// containers and out-of-line leaf values) of its fields. Its bytes live
/// in the enclosing block's `raw_data`.
#[derive(Debug)]
pub struct TagStructData {
    /// Index into [`TagLayout::struct_layouts`].
    pub struct_index: u32,
    /// Sub-chunks in stored order.
    pub sub_chunks: Vec<TagSubChunkEntry>,
}

/// One sub-chunk of a struct.
#[derive(Debug)]
pub struct TagSubChunkEntry {
    /// The owning field (an index into [`TagLayout::fields`]), or `None`
    /// for an empty placeholder chunk that belongs to no field.
    pub field_index: Option<u32>,
    pub content: TagSubChunkContent,
}

/// Payload of a sub-chunk.
#[derive(Debug)]
pub enum TagSubChunkContent {
    /// Nested struct; its bytes are in the enclosing block at the
    /// field's offset.
    Struct(TagStructData),
    /// Nested block, with a byte buffer of its own.
    Block(TagBlockData),
    /// Inline fixed-count array; element `i`'s bytes are at
    /// `field.offset + i * element_size` in the enclosing block.
    Array(Vec<TagStructData>),
    /// `tgrf` payload: group tag and path.
    TagReference(Vec<u8>),
    /// `tgsi` payload of a string id.
    StringId(Vec<u8>),
    /// `tgsi` payload of an old-style string id.
    OldStringId(Vec<u8>),
    /// `tgda` payload.
    Data(Vec<u8>),
    /// `ti][` payload of an API interop field.
    ApiInterop(Vec<u8>),
    /// Pageable resource.
    Resource(TagResourceChunk),
    /// Empty `tgst` chunk with no owning field, kept for a byte-exact
    /// rewrite.
    EmptyPlaceholder,
}

/// The concrete shape of a pageable resource.
#[derive(Debug)]
pub enum TagResourceChunk {
    /// `tg\0c`: empty.
    Null,
    /// `tgrc`: an exploded payload and the resource's own struct tree.
    Exploded { exploded: Vec<u8>, struct_data: TagStructData },
    /// `tgxc`: opaque payload.
    Xsync(Vec<u8>),
}

/// A block: a variable-count list of elements of one struct.
/// Element `i`'s bytes are `raw_data[i * size .. (i + 1) * size]`.
#[derive(Debug)]
pub struct TagBlockData {
    /// Index into [`TagLayout::block_layouts`].
    pub block_index: u32,
    /// Block flags; bit 0 marks a simple (bytes-only) block.
    pub flags: u32,
    /// Concatenated element bytes.
    pub raw_data: Vec<u8>,
    /// Byte order of the element bytes.
    pub endian: Endian,
    /// Per-element struct trees.
    pub elements: Vec<TagStructData>,
    /// The 16-byte block header of a Halo 2 classic tag, kept verbatim.
    pub classic_block_header: Option<Vec<u8>>,
}

//================================================================================
// Well-formedness
//================================================================================

/// The struct index of block layout `b`'s elements.
pub open spec fn block_struct(layout: TagLayout, b: int) -> int {
    layout.block_layouts@[b].struct_index as int
}

/// Size in bytes of one element of block layout `b`.
pub open spec fn block_element_size(layout: TagLayout, b: int) -> int {
    layout.struct_layouts@[block_struct(layout, b)].size as int
}

/// A struct instance agrees with the layout, all the way down.
pub open spec fn struct_ok(layout: TagLayout, d: TagStructData) -> bool
    decreases d, 0nat,
{
    &&& d.struct_index < layout.struct_layouts@.len()
    &&& forall|k: int| 0 <= k < d.sub_chunks@.len() ==> entry_ok(layout, d.struct_index as int, #[trigger] d.sub_chunks@[k])
}

/// A sub-chunk of struct `s` agrees with the layout: its owning field is
/// a field of `s`, and a container payload has the shape that field's
/// definition gives.
pub open spec fn entry_ok(layout: TagLayout, s: int, e: TagSubChunkEntry) -> bool
    decreases e, 0nat,
{
    match e.field_index {
        None => e.content is EmptyPlaceholder,
        Some(fi) => layout.field_of_struct(s, fi as int) && content_ok(layout, fi as int, e.content),
    }
}

/// Payload `c` of field `fi` agrees with the layout: a container or a
/// string id, data or API interop payload is of the field's kind (a tag
/// reference may be set on any field stored as a leaf sub-chunk), and a
/// container has the shape the field's definition gives.
pub open spec fn content_ok(layout: TagLayout, fi: int, c: TagSubChunkContent) -> bool
    decreases c, 0nat,
{
    let f = layout.fields@[fi];
    match c {
        TagSubChunkContent::Struct(n) => {
            &&& f.field_type == TagFieldType::Struct
            &&& n.struct_index == f.definition
            &&& struct_ok(layout, n)
        },
        TagSubChunkContent::Block(b) => {
            &&& f.field_type == TagFieldType::Block
            &&& b.block_index == f.definition
            &&& block_ok(layout, b)
        },
        TagSubChunkContent::Array(els) => {
            &&& f.field_type == TagFieldType::Array
            &&& els@.len() == layout.array_layouts@[f.definition as int].count
            &&& forall|k: int|
                0 <= k < els@.len() ==> {
                    &&& (#[trigger] els@[k]).struct_index == layout.array_layouts@[f.definition as int].struct_index
                    &&& struct_ok(layout, els@[k])
                }
        },
        TagSubChunkContent::Resource(TagResourceChunk::Exploded { struct_data, .. }) => {
            &&& f.field_type == TagFieldType::PageableResource
            &&& struct_data.struct_index == layout.resource_layouts@[f.definition as int].struct_index
            &&& struct_ok(layout, struct_data)
        },
        TagSubChunkContent::Resource(_) => f.field_type == TagFieldType::PageableResource,
        TagSubChunkContent::TagReference(_) => has_sub_chunk(f.field_type) && !is_container(f.field_type),
        TagSubChunkContent::StringId(_) => f.field_type == TagFieldType::StringId,
        TagSubChunkContent::OldStringId(_) => f.field_type == TagFieldType::OldStringId,
        TagSubChunkContent::Data(_) => f.field_type == TagFieldType::Data,
        TagSubChunkContent::ApiInterop(_) => f.field_type == TagFieldType::ApiInterop,
        TagSubChunkContent::EmptyPlaceholder => false,
    }
}

/// A block agrees with the layout: its byte buffer holds exactly its
/// elements, and every element is an instance of the block's struct.
pub open spec fn block_ok(layout: TagLayout, b: TagBlockData) -> bool
    decreases b, 0nat,
{
    &&& b.block_index < layout.block_layouts@.len()
    &&& b.raw_data@.len() == b.elements@.len() * block_element_size(layout, b.block_index as int)
    &&& forall|k: int|
        0 <= k < b.elements@.len() ==> {
            &&& (#[trigger] b.elements@[k]).struct_index == block_struct(layout, b.block_index as int)
            &&& struct_ok(layout, b.elements@[k])
        }
}

//================================================================================
// Fixed-size records
//================================================================================

/// Record `k` of a buffer of `size`-byte records.
pub open spec fn record(raw: Seq<u8>, size: int, k: int) -> Seq<u8> {
    raw.subrange(k * size, (k + 1) * size)
}

/// The first `n` records of a buffer of `size`-byte records.
pub open spec fn records(raw: Seq<u8>, size: int, n: int) -> Seq<Seq<u8>> {
    Seq::new(n as nat, |k: int| record(raw, size, k))
}

pub proof fn lemma_record_bounds(size: int, k: int, n: int)
    requires
        0 <= size,
        0 <= k < n,
    ensures
        0 <= k * size,
        k * size + size == (k + 1) * size,
        (k + 1) * size <= n * size,
{
    assert(0 <= k * size) by (nonlinear_arith)
        requires
            0 <= size,
            0 <= k,
    ;
    assert(k * size + size == (k + 1) * size) by (nonlinear_arith);
    assert((k + 1) * size <= n * size) by (nonlinear_arith)
        requires
            0 <= size,
            k + 1 <= n,
    ;
}

/// Records of a concatenation are the records of its parts.
pub proof fn lemma_records_concat(a: Seq<u8>, b: Seq<u8>, size: int, n: int, m: int)
    requires
        0 <= size,
        0 <= n,
        0 <= m,
        a.len() == n * size,
        b.len() == m * size,
    ensures
        records(a + b, size, n + m) == records(a, size, n) + records(b, size, m),
{
    assert forall|k: int| 0 <= k < n + m implies #[trigger] records(a + b, size, n + m)[k] == (records(a, size, n)
        + records(b, size, m))[k] by {
        if k < n {
            lemma_record_bounds(size, k, n);
            assert(record(a + b, size, k) =~= record(a, size, k));
        } else {
            let j = k - n;
            lemma_record_bounds(size, j, m);
            assert(k * size == n * size + j * size) by (nonlinear_arith)
                requires
                    j == k - n,
            ;
            assert((k + 1) * size == n * size + (j + 1) * size) by (nonlinear_arith)
                requires
                    j == k - n,
            ;
            assert(record(a + b, size, k) =~= record(b, size, j));
        }
    }
    assert(records(a + b, size, n + m) =~= records(a, size, n) + records(b, size, m));
}

/// Records of a record-aligned slice are a slice of the records.
pub proof fn lemma_records_subrange(raw: Seq<u8>, size: int, n: int, i: int, j: int)
    requires
        0 <= size,
        0 <= i <= j <= n,
        raw.len() == n * size,
    ensures
        0 <= i * size <= j * size <= raw.len(),
        records(raw.subrange(i * size, j * size), size, j - i) == records(raw, size, n).subrange(i, j),
{
    assert(0 <= i * size <= j * size <= n * size) by (nonlinear_arith)
        requires
            0 <= size,
            0 <= i <= j <= n,
    ;
    let sub = raw.subrange(i * size, j * size);
    assert forall|k: int| 0 <= k < j - i implies #[trigger] records(sub, size, j - i)[k] == records(raw, size, n).subrange(i, j)[k] by {
        lemma_record_bounds(size, k, j - i);
        lemma_record_bounds(size, k + i, n);
        assert((k + i) * size == i * size + k * size) by (nonlinear_arith);
        assert((k + i + 1) * size == i * size + (k + 1) * size) by (nonlinear_arith);
        assert((j - i) * size == j * size - i * size) by (nonlinear_arith);
        assert(record(sub, size, k) =~= record(raw, size, k + i));
    }
    assert(records(sub, size, j - i) =~= records(raw, size, n).subrange(i, j));
}

/// A buffer of exactly one record.
pub proof fn lemma_records_single(x: Seq<u8>, size: int)
    requires
        0 <= size,
        x.len() == size,
    ensures
        records(x, size, 1) == seq![x],
{
    assert(record(x, size, 0) =~= x);
    assert(records(x, size, 1) =~= seq![x]);
}

/// Append `src[lo..hi]`.
fn append_range(out: &mut Vec<u8>, src: &[u8], lo: usize, hi: usize)
    requires
        lo <= hi <= src@.len(),
    ensures
        final(out)@ == old(out)@ + src@.subrange(lo as int, hi as int),
{
    let part = vstd::slice::slice_subrange(src, lo, hi);
    out.extend_from_slice(part);
    assert(out@ =~= old(out)@ + src@.subrange(lo as int, hi as int));
}

/// `n` zero bytes.
pub open spec fn zeros(n: nat) -> Seq<u8> {
    Seq::new(n, |i: int| 0u8)
}

fn zero_bytes(n: usize) -> (r: Vec<u8>)
    ensures
        r@ == zeros(n as nat),
{
    let mut r: Vec<u8> = Vec::new();
    let mut i: usize = 0;
    while i < n
        invariant
            i <= n,
            r@ == zeros(i as nat),
        decreases n - i,
    {
        r.push(0);
        i = i + 1;
        assert(r@ =~= zeros(i as nat));
    }
    r
}

//================================================================================
// Block operations
//================================================================================

impl TagBlockData {
    /// The element records of this block.
    pub open spec fn spec_records(&self, layout: TagLayout) -> Seq<Seq<u8>> {
        records(self.raw_data@, block_element_size(layout, self.block_index as int), self.elements@.len() as int)
    }

    /// Size of one element's byte region.
    pub fn element_size(&self, layout: &TagLayout) -> (r: usize)
        requires
            layout.wf(),
            self.block_index < layout.block_layouts@.len(),
        ensures
            r == block_element_size(*layout, self.block_index as int),
    {
        let struct_index = layout.block_layouts[self.block_index as usize].struct_index as usize;
        layout.struct_layouts[struct_index].size
    }

    /// Bytes of element `i`.
    pub fn element_raw<'a>(&'a self, layout: &TagLayout, i: usize) -> (r: &'a [u8])
        requires
            layout.wf(),
            block_ok(*layout, *self),
            i < self.elements@.len(),
        ensures
            r@ == record(self.raw_data@, block_element_size(*layout, self.block_index as int), i as int),
    {
        let size = self.element_size(layout);
        let total = self.raw_data.len();
        proof {
            lemma_record_bounds(size as int, i as int, self.elements@.len() as int);
        }
        let start = i * size;
        vstd::slice::slice_subrange(self.raw_data.as_slice(), start, start + size)
    }

    /// Remove element `i` and its bytes.
    pub fn delete_at(&mut self, layout: &TagLayout, index: usize)
        requires
            layout.wf(),
            block_ok(*layout, *old(self)),
            index < old(self).elements@.len(),
        ensures
            block_ok(*layout, *final(self)),
            final(self).block_index == old(self).block_index,
            final(self).flags == old(self).flags,
            final(self).elements@ == old(self).elements@.remove(index as int),
            final(self).spec_records(*layout) == old(self).spec_records(*layout).remove(index as int),
    {
        let size = self.element_size(layout);
        let n = self.elements.len();
        let total = self.raw_data.len();
        let ghost old_raw = self.raw_data@;
        proof {
            lemma_record_bounds(size as int, index as int, n as int);
            lemma_records_subrange(old_raw, size as int, n as int, 0, index as int);
            lemma_records_subrange(old_raw, size as int, n as int, index + 1, n as int);
        }
        let start = index * size;
        let mut raw: Vec<u8> = Vec::new();
        append_range(&mut raw, self.raw_data.as_slice(), 0, start);
        append_range(&mut raw, self.raw_data.as_slice(), start + size, n * size);
        proof {
            assert(0 * (size as int) == 0);
            assert((n as int) * (size as int) - (index + 1) * (size as int) == (n - index - 1) * (size as int))
                by (nonlinear_arith);
            assert((n - 1) * (size as int) == (n as int) * (size as int) - size) by (nonlinear_arith);
            lemma_records_concat(old_raw.subrange(0, start as int), old_raw.subrange((index + 1) * size, n * size),
                size as int, index as int, n - index - 1);
            assert(records(old_raw, size as int, n as int).remove(index as int)
                =~= records(old_raw, size as int, n as int).subrange(0, index as int)
                + records(old_raw, size as int, n as int).subrange(index + 1, n as int));
            assert((n - 1) * size == index * size + (n - index - 1) * size) by (nonlinear_arith);
        }
        self.raw_data = raw;
        self.elements.remove(index);
        assert forall|k: int| 0 <= k < self.elements@.len() implies {
            &&& (#[trigger] self.elements@[k]).struct_index == block_struct(*layout, self.block_index as int)
            &&& struct_ok(*layout, self.elements@[k])
        } by {
            if k < index {
                assert(self.elements@[k] == old(self).elements@[k]);
            } else {
                assert(self.elements@[k] == old(self).elements@[k + 1]);
            }
        }
    }

    /// Remove all elements.
    pub fn clear(&mut self)
        ensures
            final(self).block_index == old(self).block_index,
            final(self).flags == old(self).flags,
            final(self).elements@ == Seq::<TagStructData>::empty(),
            final(self).raw_data@ == Seq::<u8>::empty(),
    {
        self.raw_data.clear();
        self.elements.clear();
    }
}

//================================================================================
// Deep copies
//================================================================================

/// `a` and `b` are the same struct tree (equal indices, equal payload
/// bytes, same shape all the way down).
pub open spec fn struct_eq(a: TagStructData, b: TagStructData) -> bool
    decreases a, 0nat,
{
    &&& a.struct_index == b.struct_index
    &&& a.sub_chunks@.len() == b.sub_chunks@.len()
    &&& forall|k: int| 0 <= k < a.sub_chunks@.len() ==> entry_eq(#[trigger] a.sub_chunks@[k], b.sub_chunks@[k])
}

/// Sub-chunks with the same owner and equal payloads.
pub open spec fn entry_eq(a: TagSubChunkEntry, b: TagSubChunkEntry) -> bool
    decreases a, 0nat,
{
    a.field_index == b.field_index && content_eq(a.content, b.content)
}

/// Equal sub-chunk payloads.
pub open spec fn content_eq(a: TagSubChunkContent, b: TagSubChunkContent) -> bool
    decreases a, 0nat,
{
    match a {
        TagSubChunkContent::Struct(x) => b matches TagSubChunkContent::Struct(y) && struct_eq(x, y),
        TagSubChunkContent::Block(x) => b matches TagSubChunkContent::Block(y) && block_eq(x, y),
        TagSubChunkContent::Array(x) => b matches TagSubChunkContent::Array(y) && x@.len() == y@.len()
            && forall|k: int| 0 <= k < x@.len() ==> struct_eq(#[trigger] x@[k], y@[k]),
        TagSubChunkContent::TagReference(x) => b matches TagSubChunkContent::TagReference(y) && x@ == y@,
        TagSubChunkContent::StringId(x) => b matches TagSubChunkContent::StringId(y) && x@ == y@,
        TagSubChunkContent::OldStringId(x) => b matches TagSubChunkContent::OldStringId(y) && x@ == y@,
        TagSubChunkContent::Data(x) => b matches TagSubChunkContent::Data(y) && x@ == y@,
        TagSubChunkContent::ApiInterop(x) => b matches TagSubChunkContent::ApiInterop(y) && x@ == y@,
        TagSubChunkContent::Resource(TagResourceChunk::Null) => b matches TagSubChunkContent::Resource(
            TagResourceChunk::Null,
        ),
        TagSubChunkContent::Resource(TagResourceChunk::Exploded { exploded, struct_data }) => b matches TagSubChunkContent::Resource(
            TagResourceChunk::Exploded { exploded: e2, struct_data: s2 },
        ) && exploded@ == e2@ && struct_eq(struct_data, s2),
        TagSubChunkContent::Resource(TagResourceChunk::Xsync(x)) => b matches TagSubChunkContent::Resource(
            TagResourceChunk::Xsync(y),
        ) && x@ == y@,
        TagSubChunkContent::EmptyPlaceholder => b is EmptyPlaceholder,
    }
}

/// Equal blocks: same index, flags, bytes, header and element trees.
pub open spec fn block_eq(a: TagBlockData, b: TagBlockData) -> bool
    decreases a, 0nat,
{
    &&& a.block_index == b.block_index
    &&& a.flags == b.flags
    &&& a.raw_data@ == b.raw_data@
    &&& a.endian == b.endian
    &&& match (a.classic_block_header, b.classic_block_header) {
        (None, None) => true,
        (Some(x), Some(y)) => x@ == y@,
        _ => false,
    }
    &&& a.elements@.len() == b.elements@.len()
    &&& forall|k: int| 0 <= k < a.elements@.len() ==> struct_eq(#[trigger] a.elements@[k], b.elements@[k])
}

/// Agreement with the layout carries over to an equal copy.
pub proof fn lemma_struct_eq_ok(layout: TagLayout, a: TagStructData, b: TagStructData)
    requires
        struct_eq(a, b),
        struct_ok(layout, a),
    ensures
        struct_ok(layout, b),
    decreases a, 0nat,
{
    assert forall|k: int| 0 <= k < b.sub_chunks@.len() implies entry_ok(layout, b.struct_index as int, #[trigger] b.sub_chunks@[k]) by {
        let ea = a.sub_chunks@[k];
        assert(entry_eq(ea, b.sub_chunks@[k]));
        assert(entry_ok(layout, a.struct_index as int, ea));
        if let Some(fi) = ea.field_index {
            lemma_content_eq_ok(layout, fi as int, ea.content, b.sub_chunks@[k].content);
        }
    }
}

/// See [`lemma_struct_eq_ok`].
pub proof fn lemma_content_eq_ok(layout: TagLayout, fi: int, a: TagSubChunkContent, b: TagSubChunkContent)
    requires
        content_eq(a, b),
        content_ok(layout, fi, a),
    ensures
        content_ok(layout, fi, b),
    decreases a, 0nat,
{
    match a {
        TagSubChunkContent::Struct(x) => {
            let y = b->Struct_0;
            lemma_struct_eq_ok(layout, x, y);
        },
        TagSubChunkContent::Block(x) => {
            let y = b->Block_0;
            lemma_block_eq_ok(layout, x, y);
        },
        TagSubChunkContent::Array(x) => {
            let y = b->Array_0;
            assert forall|k: int| 0 <= k < y@.len() implies {
                &&& (#[trigger] y@[k]).struct_index == layout.array_layouts@[layout.fields@[fi].definition as int].struct_index
                &&& struct_ok(layout, y@[k])
            } by {
                assert(struct_eq(x@[k], y@[k]));
                lemma_struct_eq_ok(layout, x@[k], y@[k]);
            }
        },
        TagSubChunkContent::Resource(TagResourceChunk::Exploded { exploded, struct_data }) => {
            if let TagSubChunkContent::Resource(TagResourceChunk::Exploded { exploded: e2, struct_data: s2 }) = b {
                lemma_struct_eq_ok(layout, struct_data, s2);
            }
        },
        _ => {},
    }
}

/// See [`lemma_struct_eq_ok`].
pub proof fn lemma_block_eq_ok(layout: TagLayout, a: TagBlockData, b: TagBlockData)
    requires
        block_eq(a, b),
        block_ok(layout, a),
    ensures
        block_ok(layout, b),
    decreases a, 0nat,
{
    assert forall|k: int| 0 <= k < b.elements@.len() implies {
        &&& (#[trigger] b.elements@[k]).struct_index == block_struct(layout, b.block_index as int)
        &&& struct_ok(layout, b.elements@[k])
    } by {
        assert(struct_eq(a.elements@[k], b.elements@[k]));
        lemma_struct_eq_ok(layout, a.elements@[k], b.elements@[k]);
    }
}

fn clone_bytes(v: &Vec<u8>) -> (r: Vec<u8>)
    ensures
        r@ == v@,
{
    vstd::slice::slice_to_vec(v.as_slice())
}

/// Deep copy of a struct tree.
pub fn clone_struct(s: &TagStructData) -> (r: TagStructData)
    ensures
        struct_eq(*s, r),
    decreases *s, 1nat,
{
    let mut subs: Vec<TagSubChunkEntry> = Vec::new();
    let mut k: usize = 0;
    while k < s.sub_chunks.len()
        invariant
            k <= s.sub_chunks@.len(),
            subs@.len() == k,
            forall|j: int| 0 <= j < k ==> entry_eq(#[trigger] s.sub_chunks@[j], subs@[j]),
        decreases s.sub_chunks@.len() - k,
    {
        let e = &s.sub_chunks[k];
        let content = clone_content(&e.content);
        subs.push(TagSubChunkEntry { field_index: e.field_index, content });
        k = k + 1;
    }
    TagStructData { struct_index: s.struct_index, sub_chunks: subs }
}

fn clone_structs(v: &Vec<TagStructData>) -> (r: Vec<TagStructData>)
    ensures
        r@.len() == v@.len(),
        forall|k: int| 0 <= k < v@.len() ==> struct_eq(#[trigger] v@[k], r@[k]),
    decreases *v, 1nat,
{
    let mut out: Vec<TagStructData> = Vec::new();
    let mut k: usize = 0;
    while k < v.len()
        invariant
            k <= v@.len(),
            out@.len() == k,
            forall|j: int| 0 <= j < k ==> struct_eq(#[trigger] v@[j], out@[j]),
        decreases v@.len() - k,
    {
        out.push(clone_struct(&v[k]));
        k = k + 1;
    }
    out
}

/// Deep copy of a sub-chunk payload.
fn clone_content(c: &TagSubChunkContent) -> (r: TagSubChunkContent)
    ensures
        content_eq(*c, r),
    decreases *c, 1nat,
{
    match c {
        TagSubChunkContent::Struct(x) => TagSubChunkContent::Struct(clone_struct(x)),
        TagSubChunkContent::Block(x) => TagSubChunkContent::Block(clone_block(x)),
        TagSubChunkContent::Array(x) => TagSubChunkContent::Array(clone_structs(x)),
        TagSubChunkContent::TagReference(x) => TagSubChunkContent::TagReference(clone_bytes(x)),
        TagSubChunkContent::StringId(x) => TagSubChunkContent::StringId(clone_bytes(x)),
        TagSubChunkContent::OldStringId(x) => TagSubChunkContent::OldStringId(clone_bytes(x)),
        TagSubChunkContent::Data(x) => TagSubChunkContent::Data(clone_bytes(x)),
        TagSubChunkContent::ApiInterop(x) => TagSubChunkContent::ApiInterop(clone_bytes(x)),
        TagSubChunkContent::Resource(TagResourceChunk::Null) => TagSubChunkContent::Resource(TagResourceChunk::Null),
        TagSubChunkContent::Resource(TagResourceChunk::Exploded { exploded, struct_data }) => TagSubChunkContent::Resource(
            TagResourceChunk::Exploded { exploded: clone_bytes(exploded), struct_data: clone_struct(struct_data) },
        ),
        TagSubChunkContent::Resource(TagResourceChunk::Xsync(x)) => TagSubChunkContent::Resource(
            TagResourceChunk::Xsync(clone_bytes(x)),
        ),
        TagSubChunkContent::EmptyPlaceholder => TagSubChunkContent::EmptyPlaceholder,
    }
}

/// Deep copy of a block.
pub fn clone_block(b: &TagBlockData) -> (r: TagBlockData)
    ensures
        block_eq(*b, r),
    decreases *b, 1nat,
{
    let header = match &b.classic_block_header {
        None => None,
        Some(h) => Some(clone_bytes(h)),
    };
    TagBlockData {
        block_index: b.block_index,
        flags: b.flags,
        raw_data: clone_bytes(&b.raw_data),
        endian: b.endian,
        elements: clone_structs(&b.elements),
        classic_block_header: header,
    }
}

//================================================================================
// Default instances
//================================================================================

/// Whether fields of type `t` are containers (never set from a value).
pub open spec fn is_container(t: TagFieldType) -> bool {
    t == TagFieldType::Struct || t == TagFieldType::Block || t == TagFieldType::Array
        || t == TagFieldType::PageableResource
}

/// Field types whose values live in a sub-chunk.
pub open spec fn has_sub_chunk(t: TagFieldType) -> bool {
    match t {
        TagFieldType::Struct | TagFieldType::Block | TagFieldType::Array | TagFieldType::TagReference
        | TagFieldType::StringId | TagFieldType::OldStringId | TagFieldType::Data | TagFieldType::ApiInterop
        | TagFieldType::PageableResource => true,
        _ => false,
    }
}

/// `d` is the default instance of struct `s` (nested structs and array
/// elements defaulted in turn, `depth` levels deep): one sub-chunk per
/// sub-chunk-bearing field, in field order.
pub open spec fn default_struct_of(layout: TagLayout, s: int, depth: nat, d: TagStructData) -> bool
    decreases depth, 0nat, 0nat,
{
    &&& d.struct_index == s
    &&& if depth == 0 {
        d.sub_chunks@.len() == 0
    } else {
        default_entries_from(layout, layout.struct_layouts@[s].first_field_index as int, (depth - 1) as nat, d.sub_chunks@)
    }
}

/// `es` are the default sub-chunks of the fields from `i` up to the next
/// terminator.
pub open spec fn default_entries_from(layout: TagLayout, i: int, depth: nat, es: Seq<TagSubChunkEntry>) -> bool
    decreases depth, 2nat, layout.fields@.len() - i,
{
    if i < 0 || i >= layout.fields@.len() || layout.fields@[i].field_type == TagFieldType::Terminator {
        es.len() == 0
    } else if has_sub_chunk(layout.fields@[i].field_type) {
        &&& es.len() > 0
        &&& es[0].field_index == Some(i as u32)
        &&& default_content_of(layout, i, depth, es[0].content)
        &&& default_entries_from(layout, i + 1, depth, es.drop_first())
    } else {
        default_entries_from(layout, i + 1, depth, es)
    }
}

/// `c` is the default payload of field `fi`.
pub open spec fn default_content_of(layout: TagLayout, fi: int, depth: nat, c: TagSubChunkContent) -> bool
    decreases depth, 1nat, 0nat,
{
    let f = layout.fields@[fi];
    match f.field_type {
        TagFieldType::Struct => c matches TagSubChunkContent::Struct(n) && default_struct_of(layout, f.definition as int, depth, n),
        TagFieldType::Block => c matches TagSubChunkContent::Block(b) && b.block_index == f.definition && b.flags == 0
            && b.raw_data@.len() == 0 && b.elements@.len() == 0 && b.classic_block_header is None,
        TagFieldType::Array => c matches TagSubChunkContent::Array(els) && els@.len() == layout.array_layouts@[f.definition as int].count
            && forall|k: int| 0 <= k < els@.len() ==> default_struct_of(layout, layout.array_layouts@[f.definition as int].struct_index as int, depth, #[trigger] els@[k]),
        TagFieldType::TagReference => c matches TagSubChunkContent::TagReference(p) && p@.len() == 0,
        TagFieldType::StringId => c matches TagSubChunkContent::StringId(p) && p@.len() == 0,
        TagFieldType::OldStringId => c matches TagSubChunkContent::OldStringId(p) && p@.len() == 0,
        TagFieldType::Data => c matches TagSubChunkContent::Data(p) && p@.len() == 0,
        TagFieldType::ApiInterop => c matches TagSubChunkContent::ApiInterop(p) && p@ == zeros(12),
        TagFieldType::PageableResource => c matches TagSubChunkContent::Resource(TagResourceChunk::Null),
        _ => false,
    }
}

/// Build the default payload of sub-chunk-bearing field `fi`.
fn new_default_content(layout: &TagLayout, s: Ghost<int>, fi: usize, depth: u32) -> (r: TagSubChunkContent)
    requires
        layout.wf(),
        layout.field_of_struct(s@, fi as int),
        has_sub_chunk(layout.fields@[fi as int].field_type),
    ensures
        default_content_of(*layout, fi as int, depth as nat, r),
        content_ok(*layout, fi as int, r),
    decreases depth, 1nat,
{
    proof {
        assert(layout.field_of_struct(s@, fi as int));
    }
    let field = layout.fields[fi];
    match field.field_type {
        TagFieldType::Struct => {
            TagSubChunkContent::Struct(TagStructData::new_default(layout, field.definition as usize, depth))
        },
        TagFieldType::Block => TagSubChunkContent::Block(TagBlockData {
            block_index: field.definition,
            flags: 0,
            raw_data: Vec::new(),
            endian: Endian::Le,
            elements: Vec::new(),
            classic_block_header: None,
        }),
        TagFieldType::Array => {
            let array = layout.array_layouts[field.definition as usize];
            let mut elements: Vec<TagStructData> = Vec::new();
            let mut k: u32 = 0;
            while k < array.count
                invariant
                    layout.wf(),
                    k <= array.count,
                    array == layout.array_layouts@[field.definition as int],
                    field == layout.fields@[fi as int],
                    field.definition < layout.array_layouts@.len(),
                    elements@.len() == k,
                    forall|j: int| 0 <= j < k ==> {
                        &&& default_struct_of(*layout, array.struct_index as int, depth as nat, #[trigger] elements@[j])
                        &&& elements@[j].struct_index == array.struct_index
                        &&& struct_ok(*layout, elements@[j])
                    },
                decreases array.count - k,
            {
                elements.push(TagStructData::new_default(layout, array.struct_index as usize, depth));
                k = k + 1;
            }
            TagSubChunkContent::Array(elements)
        },
        TagFieldType::TagReference => TagSubChunkContent::TagReference(Vec::new()),
        TagFieldType::StringId => TagSubChunkContent::StringId(Vec::new()),
        TagFieldType::OldStringId => TagSubChunkContent::OldStringId(Vec::new()),
        TagFieldType::Data => TagSubChunkContent::Data(Vec::new()),
        TagFieldType::ApiInterop => TagSubChunkContent::ApiInterop(zero_bytes(12)),
        _ => TagSubChunkContent::Resource(TagResourceChunk::Null),
    }
}

impl TagStructData {
    /// The default instance of struct `struct_index`: one sub-chunk per
    /// sub-chunk-bearing field (nested structs and array elements
    /// defaulted in turn, nested blocks empty, references null, string
    /// ids and data empty, API interop twelve zero bytes, resources
    /// null). Nesting stops after `depth` levels, which only a cyclic
    /// layout can reach when `depth` is the number of struct definitions.
    pub fn new_default(layout: &TagLayout, struct_index: usize, depth: u32) -> (r: Self)
        requires
            layout.wf(),
            struct_index < layout.struct_layouts@.len(),
        ensures
            default_struct_of(*layout, struct_index as int, depth as nat, r),
            struct_ok(*layout, r),
        decreases depth, 0nat,
    {
        if depth == 0 {
            return TagStructData { struct_index: struct_index as u32, sub_chunks: Vec::new() };
        }
        let ghost s = struct_index as int;
        let first = layout.struct_layouts[struct_index].first_field_index as usize;
        let ghost t = choose|t: int|
            layout.struct_layouts@[s].first_field_index <= t < layout.fields@.len()
                && (#[trigger] layout.fields@[t]).field_type == TagFieldType::Terminator;
        assert(layout.struct_terminated(s));
        let mut entries: Vec<TagSubChunkEntry> = Vec::new();
        let mut i: usize = first;
        while layout.fields[i].field_type != TagFieldType::Terminator
            invariant
                layout.wf(),
                0 <= s < layout.struct_layouts@.len(),
                first == layout.struct_layouts@[s].first_field_index,
                first <= i <= t < layout.fields@.len(),
                layout.fields@[t].field_type == TagFieldType::Terminator,
                layout.no_terminator_between(first as int, i as int),
                depth > 0,
                forall|k: int| 0 <= k < entries@.len() ==> entry_ok(*layout, s, #[trigger] entries@[k]),
                forall|es: Seq<TagSubChunkEntry>|
                    default_entries_from(*layout, i as int, (depth - 1) as nat, es) ==> default_entries_from(
                        *layout,
                        first as int,
                        (depth - 1) as nat,
                        entries@ + es,
                    ),
            decreases t - i,
        {
            proof {
                assert(layout.field_of_struct(s, i as int));
            }
            let ghost before = entries@;
            let ft = layout.fields[i].field_type;
            let needs = match ft {
                TagFieldType::Struct | TagFieldType::Block | TagFieldType::Array | TagFieldType::TagReference
                | TagFieldType::StringId | TagFieldType::OldStringId | TagFieldType::Data | TagFieldType::ApiInterop
                | TagFieldType::PageableResource => true,
                _ => false,
            };
            if needs {
                let content = new_default_content(layout, Ghost(s), i, depth - 1);
                entries.push(TagSubChunkEntry { field_index: Some(i as u32), content });
                proof {
                    assert forall|es: Seq<TagSubChunkEntry>|
                        default_entries_from(*layout, i + 1, (depth - 1) as nat, es) implies default_entries_from(
                            *layout,
                            first as int,
                            (depth - 1) as nat,
                            entries@ + es,
                        ) by {
                        let es2 = seq![entries@.last()] + es;
                        assert(es2.drop_first() =~= es);
                        assert(default_entries_from(*layout, i as int, (depth - 1) as nat, es2));
                        assert(before + es2 =~= entries@ + es);
                    }
                }
            } else {
                proof {
                    assert forall|es: Seq<TagSubChunkEntry>|
                        default_entries_from(*layout, i + 1, (depth - 1) as nat, es) implies default_entries_from(
                            *layout,
                            first as int,
                            (depth - 1) as nat,
                            entries@ + es,
                        ) by {
                        assert(default_entries_from(*layout, i as int, (depth - 1) as nat, es));
                    }
                }
            }
            i = i + 1;
        }
        proof {
            assert(default_entries_from(*layout, i as int, (depth - 1) as nat, Seq::<TagSubChunkEntry>::empty()));
            assert(entries@ + Seq::<TagSubChunkEntry>::empty() =~= entries@);
        }
        TagStructData { struct_index: struct_index as u32, sub_chunks: entries }
    }
}

//================================================================================
// Record splicing
//================================================================================

/// `raw` (`n` records of `size` bytes) with `rec` inserted as record `k`.
fn insert_record(raw: &[u8], size: usize, n: usize, k: usize, rec: &[u8]) -> (r: Vec<u8>)
    requires
        raw@.len() == n * size,
        rec@.len() == size,
        k <= n,
        (n + 1) * size <= usize::MAX,
    ensures
        r@.len() == (n + 1) * size,
        records(r@, size as int, n + 1) == records(raw@, size as int, n as int).insert(k as int, rec@),
{
    proof {
        lemma_records_subrange(raw@, size as int, n as int, 0, k as int);
        lemma_records_subrange(raw@, size as int, n as int, k as int, n as int);
        assert(0 * (size as int) == 0);
        assert((n as int) * (size as int) <= (n + 1) * (size as int)) by (nonlinear_arith);
    }
    let at = k * size;
    let end = n * size;
    let mut out: Vec<u8> = Vec::new();
    append_range(&mut out, raw, 0, at);
    out.extend_from_slice(rec);
    append_range(&mut out, raw, at, end);
    proof {
        let a = raw@.subrange(0, at as int);
        let b = raw@.subrange(at as int, end as int);
        assert(out@ =~= a + rec@ + b);
        assert(b.len() == (n - k) * size) by (nonlinear_arith)
            requires
                b.len() == n * size - k * size,
        ;
        lemma_records_single(rec@, size as int);
        lemma_records_concat(a, rec@, size as int, k as int, 1);
        assert(a.len() + rec@.len() == (k + 1) * size) by (nonlinear_arith)
            requires
                a.len() == k * size,
                rec@.len() == size,
        ;
        lemma_records_concat(a + rec@, b, size as int, k + 1, n - k);
        let rs = records(raw@, size as int, n as int);
        assert(rs.insert(k as int, rec@) =~= rs.subrange(0, k as int) + seq![rec@] + rs.subrange(k as int, n as int));
        assert((n + 1) * size == k * size + size + (n - k) * size) by (nonlinear_arith);
    }
    out
}

/// `raw` (`n` records of `size` bytes) without record `k`.
fn remove_record(raw: &[u8], size: usize, n: usize, k: usize) -> (r: Vec<u8>)
    requires
        raw@.len() == n * size,
        k < n,
    ensures
        r@.len() == (n - 1) * size,
        records(r@, size as int, n - 1) == records(raw@, size as int, n as int).remove(k as int),
{
    let total = raw.len();
    proof {
        lemma_record_bounds(size as int, k as int, n as int);
        lemma_records_subrange(raw@, size as int, n as int, 0, k as int);
        lemma_records_subrange(raw@, size as int, n as int, k + 1, n as int);
        assert(0 * (size as int) == 0);
    }
    let at = k * size;
    let end = n * size;
    let mut out: Vec<u8> = Vec::new();
    append_range(&mut out, raw, 0, at);
    append_range(&mut out, raw, at + size, end);
    proof {
        let a = raw@.subrange(0, at as int);
        let b = raw@.subrange(at + size, end as int);
        assert(out@ =~= a + b);
        assert(b.len() == (n - k - 1) * size) by (nonlinear_arith)
            requires
                b.len() == n * size - (k + 1) * size,
        ;
        lemma_records_concat(a, b, size as int, k as int, n - k - 1);
        let rs = records(raw@, size as int, n as int);
        assert(rs.remove(k as int) =~= rs.subrange(0, k as int) + rs.subrange(k + 1, n as int));
        assert((n - 1) * size == k * size + (n - k - 1) * size) by (nonlinear_arith);
    }
    out
}

/// `raw` (`n` records of `size` bytes) with record `k` replaced by `rec`.
fn replace_record(raw: &[u8], size: usize, n: usize, k: usize, rec: &[u8]) -> (r: Vec<u8>)
    requires
        raw@.len() == n * size,
        rec@.len() == size,
        k < n,
    ensures
        r@.len() == n * size,
        records(r@, size as int, n as int) == records(raw@, size as int, n as int).update(k as int, rec@),
{
    let total = raw.len();
    let removed = remove_record(raw, size, n, k);
    proof {
        assert((n - 1 + 1) * size <= usize::MAX);
    }
    let out = insert_record(removed.as_slice(), size, n - 1, k, rec);
    proof {
        let rs = records(raw@, size as int, n as int);
        assert(rs.remove(k as int).insert(k as int, rec@) =~= rs.update(k as int, rec@));
    }
    out
}

impl TagBlockData {
    /// Append a zero-filled element with a default struct tree
    /// ([`TagStructData::new_default`]). Returns its index.
    pub fn add_element(&mut self, layout: &TagLayout) -> (r: usize)
        requires
            layout.wf(),
            block_ok(*layout, *old(self)),
            old(self).raw_data@.len() + block_element_size(*layout, old(self).block_index as int) <= usize::MAX,
        ensures
            r == old(self).elements@.len(),
            block_ok(*layout, *final(self)),
            final(self).block_index == old(self).block_index,
            final(self).flags == old(self).flags,
            final(self).elements@.len() == old(self).elements@.len() + 1,
            final(self).elements@.drop_last() == old(self).elements@,
            default_struct_of(*layout, block_struct(*layout, old(self).block_index as int),
                layout.struct_layouts@.len() as nat, final(self).elements@.last()),
            final(self).spec_records(*layout) == old(self).spec_records(*layout).push(
                zeros(block_element_size(*layout, old(self).block_index as int) as nat)),
    {
        let size = self.element_size(layout);
        let n = self.elements.len();
        let struct_index = layout.block_layouts[self.block_index as usize].struct_index as usize;
        let depth = layout.struct_layouts.len() as u32;
        let zero = zero_bytes(size);
        proof {
            assert((n + 1) * size == n * size + size) by (nonlinear_arith);
        }
        let raw = insert_record(self.raw_data.as_slice(), size, n, n, zero.as_slice());
        proof {
            let rs = records(self.raw_data@, size as int, n as int);
            assert(rs.insert(n as int, zero@) =~= rs.push(zero@));
        }
        self.raw_data = raw;
        let element = TagStructData::new_default(layout, struct_index, depth);
        self.elements.push(element);
        assert(self.elements@.drop_last() =~= old(self).elements@);
        assert forall|k: int| 0 <= k < self.elements@.len() implies {
            &&& (#[trigger] self.elements@[k]).struct_index == block_struct(*layout, self.block_index as int)
            &&& struct_ok(*layout, self.elements@[k])
        } by {
            if k < n {
                assert(self.elements@[k] == old(self).elements@[k]);
            }
        }
        n
    }

    /// Insert a zero-filled default element at `index` (`0..=len`),
    /// shifting later elements right.
    pub fn insert_at(&mut self, layout: &TagLayout, index: usize)
        requires
            layout.wf(),
            block_ok(*layout, *old(self)),
            index <= old(self).elements@.len(),
            old(self).raw_data@.len() + block_element_size(*layout, old(self).block_index as int) <= usize::MAX,
        ensures
            block_ok(*layout, *final(self)),
            final(self).block_index == old(self).block_index,
            final(self).flags == old(self).flags,
            final(self).elements@.len() == old(self).elements@.len() + 1,
            final(self).elements@.remove(index as int) == old(self).elements@,
            default_struct_of(*layout, block_struct(*layout, old(self).block_index as int),
                layout.struct_layouts@.len() as nat, final(self).elements@[index as int]),
            final(self).spec_records(*layout) == old(self).spec_records(*layout).insert(index as int,
                zeros(block_element_size(*layout, old(self).block_index as int) as nat)),
    {
        let size = self.element_size(layout);
        let n = self.elements.len();
        let struct_index = layout.block_layouts[self.block_index as usize].struct_index as usize;
        let depth = layout.struct_layouts.len() as u32;
        let zero = zero_bytes(size);
        proof {
            assert((n + 1) * size == n * size + size) by (nonlinear_arith);
        }
        let raw = insert_record(self.raw_data.as_slice(), size, n, index, zero.as_slice());
        self.raw_data = raw;
        let element = TagStructData::new_default(layout, struct_index, depth);
        self.elements.insert(index, element);
        assert(self.elements@.remove(index as int) =~= old(self).elements@);
        assert forall|k: int| 0 <= k < self.elements@.len() implies {
            &&& (#[trigger] self.elements@[k]).struct_index == block_struct(*layout, self.block_index as int)
            &&& struct_ok(*layout, self.elements@[k])
        } by {
            if k < index {
                assert(self.elements@[k] == old(self).elements@[k]);
            } else if k > index {
                assert(self.elements@[k] == old(self).elements@[k - 1]);
            }
        }
    }

    /// Deep-copy element `index` and insert the copy directly after it.
    pub fn duplicate_at(&mut self, layout: &TagLayout, index: usize)
        requires
            layout.wf(),
            block_ok(*layout, *old(self)),
            index < old(self).elements@.len(),
            old(self).raw_data@.len() + block_element_size(*layout, old(self).block_index as int) <= usize::MAX,
        ensures
            block_ok(*layout, *final(self)),
            final(self).block_index == old(self).block_index,
            final(self).flags == old(self).flags,
            final(self).elements@.len() == old(self).elements@.len() + 1,
            final(self).elements@.remove(index + 1) == old(self).elements@,
            struct_eq(old(self).elements@[index as int], final(self).elements@[index + 1]),
            final(self).spec_records(*layout) == old(self).spec_records(*layout).insert(index + 1,
                old(self).spec_records(*layout)[index as int]),
    {
        let size = self.element_size(layout);
        let n = self.elements.len();
        proof {
            assert((n + 1) * size == n * size + size) by (nonlinear_arith);
            lemma_record_bounds(size as int, index as int, n as int);
        }
        let copy = vstd::slice::slice_subrange(self.raw_data.as_slice(), index * size, index * size + size);
        let raw = insert_record(self.raw_data.as_slice(), size, n, index + 1, copy);
        self.raw_data = raw;
        let cloned = clone_struct(&self.elements[index]);
        proof {
            lemma_struct_eq_ok(*layout, old(self).elements@[index as int], cloned);
        }
        self.elements.insert(index + 1, cloned);
        assert(self.elements@.remove(index + 1) =~= old(self).elements@);
        assert forall|k: int| 0 <= k < self.elements@.len() implies {
            &&& (#[trigger] self.elements@[k]).struct_index == block_struct(*layout, self.block_index as int)
            &&& struct_ok(*layout, self.elements@[k])
        } by {
            if k <= index {
                assert(self.elements@[k] == old(self).elements@[k]);
            } else if k > index + 1 {
                assert(self.elements@[k] == old(self).elements@[k - 1]);
            }
        }
    }

    /// Swap elements `i` and `j` (bytes and trees).
    pub fn swap_at(&mut self, layout: &TagLayout, i: usize, j: usize)
        requires
            layout.wf(),
            block_ok(*layout, *old(self)),
            i < old(self).elements@.len(),
            j < old(self).elements@.len(),
        ensures
            block_ok(*layout, *final(self)),
            final(self).block_index == old(self).block_index,
            final(self).flags == old(self).flags,
            final(self).elements@ == old(self).elements@.update(i as int, old(self).elements@[j as int]).update(
                j as int,
                old(self).elements@[i as int],
            ),
            final(self).spec_records(*layout) == old(self).spec_records(*layout).update(
                i as int,
                old(self).spec_records(*layout)[j as int],
            ).update(j as int, old(self).spec_records(*layout)[i as int]),
    {
        if i == j {
            assert(self.elements@.update(i as int, self.elements@[j as int]) =~= self.elements@);
            assert(self.spec_records(*layout).update(i as int, self.spec_records(*layout)[j as int])
                =~= self.spec_records(*layout));
            return;
        }
        let size = self.element_size(layout);
        let n = self.elements.len();
        let total = self.raw_data.len();
        proof {
            lemma_record_bounds(size as int, i as int, n as int);
            lemma_record_bounds(size as int, j as int, n as int);
        }
        let rec_i = vstd::slice::slice_subrange(self.raw_data.as_slice(), i * size, i * size + size);
        let rec_j = vstd::slice::slice_subrange(self.raw_data.as_slice(), j * size, j * size + size);
        let step = replace_record(self.raw_data.as_slice(), size, n, i, rec_j);
        let raw = replace_record(step.as_slice(), size, n, j, rec_i);
        self.raw_data = raw;
        let (lo, hi) = if i < j { (i, j) } else { (j, i) };
        let e_hi = self.elements.remove(hi);
        let e_lo = self.elements.remove(lo);
        self.elements.insert(lo, e_hi);
        self.elements.insert(hi, e_lo);
        assert(self.elements@ =~= old(self).elements@.update(i as int, old(self).elements@[j as int]).update(
            j as int,
            old(self).elements@[i as int],
        ));
        assert forall|k: int| 0 <= k < self.elements@.len() implies {
            &&& (#[trigger] self.elements@[k]).struct_index == block_struct(*layout, self.block_index as int)
            &&& struct_ok(*layout, self.elements@[k])
        } by {
            if k == i {
                assert(self.elements@[k] == old(self).elements@[j as int]);
            } else if k == j {
                assert(self.elements@[k] == old(self).elements@[i as int]);
            } else {
                assert(self.elements@[k] == old(self).elements@[k]);
            }
        }
    }

    /// Move element `from` to final position `to` (remove, then insert).
    pub fn move_at(&mut self, layout: &TagLayout, from: usize, to: usize)
        requires
            layout.wf(),
            block_ok(*layout, *old(self)),
            from < old(self).elements@.len(),
            to < old(self).elements@.len(),
        ensures
            block_ok(*layout, *final(self)),
            final(self).block_index == old(self).block_index,
            final(self).flags == old(self).flags,
            final(self).elements@ == old(self).elements@.remove(from as int).insert(
                to as int,
                old(self).elements@[from as int],
            ),
            final(self).spec_records(*layout) == old(self).spec_records(*layout).remove(from as int).insert(
                to as int,
                old(self).spec_records(*layout)[from as int],
            ),
    {
        if from == to {
            assert(self.elements@.remove(from as int).insert(to as int, self.elements@[from as int])
                =~= self.elements@);
            assert(self.spec_records(*layout).remove(from as int).insert(to as int, self.spec_records(*layout)[from as int])
                =~= self.spec_records(*layout));
            return;
        }
        let size = self.element_size(layout);
        let n = self.elements.len();
        let total = self.raw_data.len();
        proof {
            lemma_record_bounds(size as int, from as int, n as int);
            assert((n - 1 + 1) * size == n * size);
        }
        let rec = vstd::slice::slice_subrange(self.raw_data.as_slice(), from * size, from * size + size);
        let rest = remove_record(self.raw_data.as_slice(), size, n, from);
        let raw = insert_record(rest.as_slice(), size, n - 1, to, rec);
        self.raw_data = raw;
        let e = self.elements.remove(from);
        self.elements.insert(to, e);
        assert forall|k: int| 0 <= k < self.elements@.len() implies {
            &&& (#[trigger] self.elements@[k]).struct_index == block_struct(*layout, self.block_index as int)
            &&& struct_ok(*layout, self.elements@[k])
        } by {
            let mid = old(self).elements@.remove(from as int);
            if k < to {
                assert(self.elements@[k] == mid[k]);
            } else if k > to {
                assert(self.elements@[k] == mid[k - 1]);
            }
            if k != to {
                let m = if k < to { k } else { k - 1 };
                if m < from {
                    assert(mid[m] == old(self).elements@[m]);
                } else {
                    assert(mid[m] == old(self).elements@[m + 1]);
                }
            }
        }
    }
}

//================================================================================
// Sub-chunk lookup
//================================================================================

/// Index of the first sub-chunk at or after `k` owned by field `fi`.
pub open spec fn entry_from(subs: Seq<TagSubChunkEntry>, k: int, fi: int) -> Option<int>
    decreases subs.len() - k,
{
    if k < 0 || k >= subs.len() {
        None
    } else if subs[k].field_index == Some(fi as u32) {
        Some(k)
    } else {
        entry_from(subs, k + 1, fi)
    }
}

/// Index of the first sub-chunk owned by field `fi`.
pub open spec fn entry_of(subs: Seq<TagSubChunkEntry>, fi: int) -> Option<int> {
    entry_from(subs, 0, fi)
}

/// The sub-chunk found from `k` on lies at or after `k` and is owned by
/// field `fi`.
pub proof fn lemma_entry_from_range(subs: Seq<TagSubChunkEntry>, k: int, fi: int)
    requires
        0 <= k,
    ensures
        entry_from(subs, k, fi) matches Some(j) ==> k <= j < subs.len() && subs[j].field_index == Some(fi as u32),
    decreases subs.len() - k,
{
    if k < subs.len() && subs[k].field_index != Some(fi as u32) {
        lemma_entry_from_range(subs, k + 1, fi);
    }
}

/// Find the first sub-chunk owned by field `fi`.
pub fn find_entry(subs: &Vec<TagSubChunkEntry>, fi: usize) -> (r: Option<usize>)
    requires
        fi <= u32::MAX,
    ensures
        r matches Some(j) ==> entry_of(subs@, fi as int) == Some(j as int) && j < subs@.len()
            && subs@[j as int].field_index == Some(fi as u32),
        r is None ==> entry_of(subs@, fi as int) is None,
{
    let mut k: usize = 0;
    while k < subs.len()
        invariant
            k <= subs@.len(),
            fi <= u32::MAX,
            entry_from(subs@, k as int, fi as int) == entry_of(subs@, fi as int),
        decreases subs@.len() - k,
    {
        if subs[k].field_index == Some(fi as u32) {
            return Some(k);
        }
        k = k + 1;
    }
    None
}

/// Entries of a layout-conforming struct are layout-conforming.
pub proof fn lemma_entry_ok(layout: TagLayout, d: TagStructData, j: int)
    requires
        struct_ok(layout, d),
        0 <= j < d.sub_chunks@.len(),
    ensures
        entry_ok(layout, d.struct_index as int, d.sub_chunks@[j]),
{
}

} // verus!
