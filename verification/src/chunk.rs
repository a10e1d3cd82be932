//! The chunked on-disk form of a tag's data tree: every struct is a
//! `tgst` chunk holding its sub-chunks, every block a `tgbl` chunk
//! holding its element count, flags, element bytes and (for complex
//! blocks) one `tgst` per element, and every out-of-line leaf value a
//! chunk of its own. A chunk header is three little-endian words:
//! signature, version and content size.
use vstd::prelude::*;

use crate::bytes::{
    le_u32, lemma_le_u32_bytes, lemma_le_u32_roundtrip, lemma_starts_with_split, push_u32_le, read_u32_le, starts_with, u32_le_bytes,
    u32_to_be, Endian,
};
use crate::classic::{classic_layout, inline_ranked};
use crate::data::{
    block_ok, content_ok, entry_ok, struct_ok, TagBlockData, TagResourceChunk, TagStructData, TagSubChunkContent,
    TagSubChunkEntry,
};
use crate::fields::TagFieldType;
use crate::file::TagReadError;
use crate::layout::{lemma_run_has_end, TagLayout};

verus! {

/// `tgst`: a struct.
pub const TGST: u32 = 0x7467_7374;

/// `tgbl`: a block.
pub const TGBL: u32 = 0x7467_626C;

/// `tgrf`: a tag reference.
pub const TGRF: u32 = 0x7467_7266;

/// `tgsi`: a string id.
pub const TGSI: u32 = 0x7467_7369;

/// `tgda`: a data blob.
pub const TGDA: u32 = 0x7467_6461;

/// `ti][`: an API interop payload.
pub const TI_API: u32 = 0x7469_5D5B;

/// `tg\0c`: a null pageable resource.
pub const TG_NULL: u32 = 0x7467_0063;

/// `tgrc`: an exploded pageable resource.
pub const TGRC: u32 = 0x7467_7263;

/// `tgdt`: the exploded payload inside a `tgrc`.
pub const TGDT: u32 = 0x7467_6474;

/// `tgxc`: an XSync pageable resource.
pub const TGXC: u32 = 0x7467_7863;

//================================================================================
// Chunk framing
//================================================================================

/// The 12 bytes of a chunk header.
pub open spec fn chunk_header_bytes(signature: u32, version: u32, size: u32) -> Seq<u8> {
    u32_le_bytes(signature) + u32_le_bytes(version) + u32_le_bytes(size)
}

/// A chunk: its header, with the content's length as size, then the
/// content.
pub open spec fn chunk_bytes(signature: u32, version: u32, content: Seq<u8>) -> Seq<u8> {
    chunk_header_bytes(signature, version, content.len() as u32) + content
}

/// Append a chunk header.
pub fn write_chunk_header(out: &mut Vec<u8>, signature: u32, version: u32, size: u32)
    ensures
        final(out)@ == old(out)@ + chunk_header_bytes(signature, version, size),
{
    push_u32_le(out, signature);
    push_u32_le(out, version);
    push_u32_le(out, size);
    assert(final(out)@ =~= old(out)@ + chunk_header_bytes(signature, version, size));
}

/// Append a whole chunk around `content`.
pub fn write_chunk(out: &mut Vec<u8>, signature: u32, version: u32, content: &[u8])
    ensures
        final(out)@ == old(out)@ + chunk_bytes(signature, version, content@),
{
    write_chunk_header(out, signature, version, content.len() as u32);
    let ghost before = out@;
    out.extend_from_slice(content);
    assert(final(out)@ =~= old(out)@ + chunk_bytes(signature, version, content@));
}

//================================================================================
// Serialized form of the tree
//================================================================================

/// The `tgst` chunk of struct `d`. Its version word repeats its size.
pub open spec fn struct_chunk(d: TagStructData) -> Seq<u8>
    decreases d, 2nat, 0nat,
{
    let c = sub_chunks_bytes(d, d.sub_chunks@.len());
    chunk_header_bytes(TGST, c.len() as u32, c.len() as u32) + c
}

/// The first `n` sub-chunks of `d`, one after another.
pub open spec fn sub_chunks_bytes(d: TagStructData, n: nat) -> Seq<u8>
    decreases d, 1nat, n,
{
    if n == 0 || n > d.sub_chunks@.len() {
        Seq::empty()
    } else {
        sub_chunks_bytes(d, (n - 1) as nat) + sub_chunk_bytes(d, n - 1)
    }
}

/// Sub-chunk `k` of `d`: an empty `tgst` for a placeholder, a nested
/// `tgst` or `tgbl`, the element sub-chunks of an array inline, or a
/// leaf chunk.
pub open spec fn sub_chunk_bytes(d: TagStructData, k: int) -> Seq<u8>
    decreases d, 0nat, 0nat,
{
    if 0 <= k < d.sub_chunks@.len() {
        match d.sub_chunks@[k].content {
            TagSubChunkContent::EmptyPlaceholder => chunk_header_bytes(TGST, 0, 0),
            TagSubChunkContent::Struct(n) => struct_chunk(n),
            TagSubChunkContent::Block(b) => chunk_bytes(
                TGBL,
                0,
                block_body(b.elements@.len(), b.flags, b.raw_data@) + if b.flags & 1 == 0 {
                    structs_chunks(b.elements@, b.elements@.len())
                } else {
                    Seq::empty()
                },
            ),
            TagSubChunkContent::Array(els) => elements_sub_chunks(els@, els@.len()),
            TagSubChunkContent::TagReference(p) => chunk_bytes(TGRF, 0, p@),
            TagSubChunkContent::StringId(p) => chunk_bytes(TGSI, 0, p@),
            TagSubChunkContent::OldStringId(p) => chunk_bytes(TGSI, 0, p@),
            TagSubChunkContent::Data(p) => chunk_bytes(TGDA, 0, p@),
            TagSubChunkContent::ApiInterop(p) => chunk_bytes(TI_API, 0, p@),
            TagSubChunkContent::Resource(TagResourceChunk::Null) => chunk_header_bytes(TG_NULL, 0, 0),
            TagSubChunkContent::Resource(TagResourceChunk::Exploded { exploded, struct_data }) => chunk_bytes(
                TGRC,
                0,
                chunk_bytes(TGDT, 0, exploded@) + struct_chunk(struct_data),
            ),
            TagSubChunkContent::Resource(TagResourceChunk::Xsync(p)) => chunk_bytes(TGXC, 0, p@),
        }
    } else {
        Seq::empty()
    }
}

/// The fixed part of a `tgbl` body: element count, flags, element bytes.
pub open spec fn block_body(count: nat, flags: u32, raw: Seq<u8>) -> Seq<u8> {
    u32_le_bytes(count as u32) + u32_le_bytes(flags) + raw
}

/// The `tgst` chunks of the first `n` structs of `els`.
pub open spec fn structs_chunks(els: Seq<TagStructData>, n: nat) -> Seq<u8>
    decreases els, 1nat, n,
{
    if n == 0 || n > els.len() {
        Seq::empty()
    } else {
        structs_chunks(els, (n - 1) as nat) + struct_chunk(els[n - 1])
    }
}

/// The sub-chunks of the first `n` array elements of `els`, inline (an
/// array element has no `tgst` of its own).
pub open spec fn elements_sub_chunks(els: Seq<TagStructData>, n: nat) -> Seq<u8>
    decreases els, 1nat, n,
{
    if n == 0 || n > els.len() {
        Seq::empty()
    } else {
        elements_sub_chunks(els, (n - 1) as nat) + sub_chunks_bytes(els[n - 1], els[n - 1].sub_chunks@.len())
    }
}

/// The `tgbl` chunk of block `b`.
pub open spec fn block_chunk(b: TagBlockData) -> Seq<u8> {
    chunk_bytes(
        TGBL,
        0,
        block_body(b.elements@.len(), b.flags, b.raw_data@) + if b.flags & 1 == 0 {
            structs_chunks(b.elements@, b.elements@.len())
        } else {
            Seq::empty()
        },
    )
}

//================================================================================
// Writing
//================================================================================

impl TagStructData {
    /// Append this struct as a `tgst` chunk: the sub-chunks only, its
    /// bytes being part of the enclosing block's element bytes.
    pub fn write(&self, out: &mut Vec<u8>)
        ensures
            final(out)@ == old(out)@ + struct_chunk(*self),
        decreases *self, 2nat, 0nat,
    {
        let mut content: Vec<u8> = Vec::new();
        write_sub_chunks(self, &mut content);
        let size = content.len() as u32;
        write_chunk_header(out, TGST, size, size);
        let ghost before = out@;
        out.append(&mut content);
        assert(final(out)@ =~= old(out)@ + struct_chunk(*self));
    }
}

/// Append the sub-chunks of `d` in stored order ([`sub_chunks_bytes`]).
fn write_sub_chunks(d: &TagStructData, out: &mut Vec<u8>)
    ensures
        final(out)@ == old(out)@ + sub_chunks_bytes(*d, d.sub_chunks@.len()),
    decreases *d, 1nat, 0nat,
{
    let mut k: usize = 0;
    while k < d.sub_chunks.len()
        invariant
            k <= d.sub_chunks@.len(),
            out@ == old(out)@ + sub_chunks_bytes(*d, k as nat),
        decreases d.sub_chunks@.len() - k,
    {
        let ghost before = out@;
        write_sub_chunk(d, k, out);
        proof {
            assert(sub_chunks_bytes(*d, (k + 1) as nat) == sub_chunks_bytes(*d, k as nat) + sub_chunk_bytes(*d, k as int));
            assert(out@ =~= old(out)@ + sub_chunks_bytes(*d, (k + 1) as nat));
        }
        k = k + 1;
    }
}

/// Append sub-chunk `k` of `d` ([`sub_chunk_bytes`]).
fn write_sub_chunk(d: &TagStructData, k: usize, out: &mut Vec<u8>)
    requires
        k < d.sub_chunks@.len(),
    ensures
        final(out)@ == old(out)@ + sub_chunk_bytes(*d, k as int),
    decreases *d, 0nat, 0nat,
{
    proof {
        assert(decreases_to!(*d => d.sub_chunks));
        assert(decreases_to!(d.sub_chunks => d.sub_chunks@));
        assert(decreases_to!(d.sub_chunks@ => d.sub_chunks@[k as int]));
        assert(decreases_to!(d.sub_chunks@[k as int] => d.sub_chunks@[k as int].content));
    }
    match &d.sub_chunks[k].content {
        TagSubChunkContent::EmptyPlaceholder => {
            write_chunk_header(out, TGST, 0, 0);
        },
        TagSubChunkContent::Struct(n) => {
            n.write(out);
        },
        TagSubChunkContent::Block(b) => {
            b.write(out);
        },
        TagSubChunkContent::Array(els) => {
            proof {
                assert(decreases_to!(d.sub_chunks@[k as int].content => *els));
                assert(decreases_to!(*els => els@));
                assert(forall|i: int| 0 <= i < els@.len() ==> decreases_to!(*d => #[trigger] els@[i]));
            }
            let mut i: usize = 0;
            while i < els.len()
                invariant
                    i <= els@.len(),
                    d.sub_chunks@[k as int].content == TagSubChunkContent::Array(*els),
                    forall|j: int| 0 <= j < els@.len() ==> decreases_to!(*d => #[trigger] els@[j]),
                    out@ == old(out)@ + elements_sub_chunks(els@, i as nat),
                decreases els@.len() - i,
            {
                write_sub_chunks(&els[i], out);
                proof {
                    assert(out@ =~= old(out)@ + elements_sub_chunks(els@, (i + 1) as nat));
                }
                i = i + 1;
            }
        },
        TagSubChunkContent::TagReference(p) => {
            write_chunk(out, TGRF, 0, p.as_slice());
        },
        TagSubChunkContent::StringId(p) => {
            write_chunk(out, TGSI, 0, p.as_slice());
        },
        TagSubChunkContent::OldStringId(p) => {
            write_chunk(out, TGSI, 0, p.as_slice());
        },
        TagSubChunkContent::Data(p) => {
            write_chunk(out, TGDA, 0, p.as_slice());
        },
        TagSubChunkContent::ApiInterop(p) => {
            write_chunk(out, TI_API, 0, p.as_slice());
        },
        TagSubChunkContent::Resource(TagResourceChunk::Null) => {
            write_chunk_header(out, TG_NULL, 0, 0);
        },
        TagSubChunkContent::Resource(TagResourceChunk::Exploded { exploded, struct_data }) => {
            proof {
                assert(decreases_to!(d.sub_chunks@[k as int].content => *struct_data));
            }
            let mut inner: Vec<u8> = Vec::new();
            write_chunk(&mut inner, TGDT, 0, exploded.as_slice());
            struct_data.write(&mut inner);
            write_chunk(out, TGRC, 0, inner.as_slice());
        },
        TagSubChunkContent::Resource(TagResourceChunk::Xsync(p)) => {
            write_chunk(out, TGXC, 0, p.as_slice());
        },
    }
}

impl TagBlockData {
    /// Append this block as a `tgbl` chunk: element count, flags, element
    /// bytes, then one `tgst` per element unless flags bit 0 marks the
    /// block simple.
    pub fn write(&self, out: &mut Vec<u8>)
        ensures
            final(out)@ == old(out)@ + block_chunk(*self),
        decreases *self, 3nat, 0nat,
    {
        let mut body: Vec<u8> = Vec::new();
        push_u32_le(&mut body, self.elements.len() as u32);
        push_u32_le(&mut body, self.flags);
        body.extend_from_slice(self.raw_data.as_slice());
        assert(body@ =~= block_body(self.elements@.len(), self.flags, self.raw_data@));
        if self.flags & 1 == 0 {
            proof {
                assert(decreases_to!(*self => self.elements));
                assert(decreases_to!(self.elements => self.elements@));
                assert(forall|i: int| 0 <= i < self.elements@.len() ==> decreases_to!(*self => #[trigger] self.elements@[i]));
            }
            let ghost head = body@;
            let mut i: usize = 0;
            while i < self.elements.len()
                invariant
                    i <= self.elements@.len(),
                    forall|j: int| 0 <= j < self.elements@.len() ==> decreases_to!(*self => #[trigger] self.elements@[j]),
                    body@ == head + structs_chunks(self.elements@, i as nat),
                decreases self.elements@.len() - i,
            {
                self.elements[i].write(&mut body);
                proof {
                    assert(body@ =~= head + structs_chunks(self.elements@, (i + 1) as nat));
                }
                i = i + 1;
            }
        }
        write_chunk(out, TGBL, 0, body.as_slice());
        assert(final(out)@ =~= old(out)@ + block_chunk(*self));
    }
}


//================================================================================
// Reading
//================================================================================

/// The sub-chunks `subs`, one after another.
pub open spec fn entries_bytes(si: u32, subs: Vec<TagSubChunkEntry>) -> Seq<u8> {
    sub_chunks_bytes(TagStructData { struct_index: si, sub_chunks: subs }, subs@.len())
}

/// The bytes of the first `n` sub-chunks depend only on those sub-chunks.
proof fn lemma_sub_chunks_prefix(d: TagStructData, e: TagStructData, n: nat)
    requires
        n <= d.sub_chunks@.len(),
        n <= e.sub_chunks@.len(),
        forall|k: int| 0 <= k < n ==> d.sub_chunks@[k] == e.sub_chunks@[k],
    ensures
        sub_chunks_bytes(d, n) == sub_chunks_bytes(e, n),
    decreases n,
{
    if n > 0 {
        lemma_sub_chunks_prefix(d, e, (n - 1) as nat);
        assert(sub_chunk_bytes(d, n - 1) == sub_chunk_bytes(e, n - 1));
    }
}

/// Pushing a sub-chunk appends its bytes.
proof fn lemma_entries_push(si: u32, before: Vec<TagSubChunkEntry>, after: Vec<TagSubChunkEntry>, e: TagSubChunkEntry)
    requires
        after@ == before@.push(e),
    ensures
        entries_bytes(si, after) == entries_bytes(si, before) + sub_chunk_bytes(
            TagStructData { struct_index: si, sub_chunks: after },
            before@.len() as int,
        ),
{
    let d = TagStructData { struct_index: si, sub_chunks: before };
    let n = TagStructData { struct_index: si, sub_chunks: after };
    lemma_sub_chunks_prefix(d, n, before@.len());
}

/// The `tgst` chunks of the first `n` structs depend only on them.
proof fn lemma_structs_prefix(a: Seq<TagStructData>, b: Seq<TagStructData>, n: nat)
    requires
        n <= a.len(),
        n <= b.len(),
        forall|k: int| 0 <= k < n ==> a[k] == b[k],
    ensures
        structs_chunks(a, n) == structs_chunks(b, n),
        elements_sub_chunks(a, n) == elements_sub_chunks(b, n),
    decreases n,
{
    if n > 0 {
        lemma_structs_prefix(a, b, (n - 1) as nat);
    }
}

/// A chunk header at `pos`: its signature, version and size.
pub fn read_chunk_header(bytes: &[u8], pos: usize) -> (r: Result<(u32, u32, u32), TagReadError>)
    requires
        pos <= bytes@.len(),
    ensures
        match r {
            Ok((sig, ver, size)) => pos + 12 <= bytes@.len() <= usize::MAX && bytes@.subrange(pos as int, pos + 12)
                == chunk_header_bytes(sig, ver, size),
            Err(e) => pos + 12 > bytes@.len() && e == TagReadError::Truncated {
                need: 12,
                have: (bytes@.len() - pos) as usize,
            },
        },
        forall|a: u32, b: u32, c: u32|
            #![trigger chunk_header_bytes(a, b, c)]
            starts_with(bytes@, pos as int, chunk_header_bytes(a, b, c)) ==> r == Ok::<(u32, u32, u32), TagReadError>((a, b, c)),
{
    if bytes.len() - pos < 12 {
        return Err(TagReadError::Truncated { need: 12, have: bytes.len() - pos });
    }
    let sig = read_u32_le(bytes, pos);
    let ver = read_u32_le(bytes, pos + 4);
    let size = read_u32_le(bytes, pos + 8);
    proof {
        lemma_le_u32_bytes(bytes@, pos as int);
        lemma_le_u32_bytes(bytes@, pos + 4);
        lemma_le_u32_bytes(bytes@, pos + 8);
        assert(bytes@.subrange(pos as int, pos + 12) =~= bytes@.subrange(pos as int, pos + 4) + bytes@.subrange(
            pos + 4,
            pos + 8,
        ) + bytes@.subrange(pos + 8, pos + 12));
        assert forall|a: u32, b: u32, c: u32|
            #![trigger chunk_header_bytes(a, b, c)]
            starts_with(bytes@, pos as int, chunk_header_bytes(a, b, c)) implies sig == a && ver == b && size == c by {
            lemma_header_words(a, b, c, sig, ver, size);
        }
    }
    Ok((sig, ver, size))
}

/// The content of `size` bytes after a chunk header at `pos`, and the
/// position after it.
fn read_content(bytes: &[u8], pos: usize, size: u32) -> (r: Result<(Vec<u8>, usize), TagReadError>)
    requires
        pos + 12 <= bytes@.len(),
    ensures
        r matches Ok((c, end)) ==> {
            &&& end == pos + 12 + size <= bytes@.len()
            &&& c@ == bytes@.subrange(pos + 12, end as int)
            &&& c@.len() == size
        },
        pos + 12 + size <= bytes@.len() ==> r is Ok,
{
    let total = bytes.len();
    let start = pos + 12;
    if size as usize > total - start {
        return Err(TagReadError::Truncated { need: size as usize, have: total - start });
    }
    let end = start + size as usize;
    let c = vstd::slice::slice_to_vec(vstd::slice::slice_subrange(bytes, start, end));
    Ok((c, end))
}

/// A chunk of signature `sig` and version 0 at `pos`: its content and
/// the position after it.
fn read_leaf_chunk(bytes: &[u8], pos: usize, sig: u32) -> (r: Result<(Vec<u8>, usize), TagReadError>)
    requires
        pos <= bytes@.len(),
    ensures
        r matches Ok((c, end)) ==> pos <= end <= bytes@.len() && bytes@.subrange(pos as int, end as int) == chunk_bytes(
            sig,
            0,
            c@,
        ),
        forall|p: Seq<u8>|
            #![trigger chunk_bytes(sig, 0, p)]
            p.len() <= u32::MAX && starts_with(bytes@, pos as int, chunk_bytes(sig, 0, p)) ==> (r matches Ok((c, end))
                && end == pos + chunk_bytes(sig, 0, p).len() && c@ == p),
{
    proof {
        assert forall|p: Seq<u8>|
            #![trigger chunk_bytes(sig, 0, p)]
            p.len() <= u32::MAX && starts_with(bytes@, pos as int, chunk_bytes(sig, 0, p)) implies starts_with(
                bytes@,
                pos as int,
                chunk_header_bytes(sig, 0, p.len() as u32),
            ) && pos + 12 + p.len() <= bytes@.len() by {
            lemma_starts_with_split(bytes@, pos as int, chunk_header_bytes(sig, 0, p.len() as u32), p);
        }
    }
    let (s, v, size) = read_chunk_header(bytes, pos)?;
    if s != sig {
        return Err(TagReadError::BadChunkSignature { offset: pos as u64, expected: u32_to_be(sig), got: u32_to_be(s) });
    }
    if v != 0 {
        return Err(TagReadError::BadChunkVersion { offset: pos as u64, version: v });
    }
    let (c, end) = read_content(bytes, pos, size)?;
    assert(bytes@.subrange(pos as int, end as int) =~= bytes@.subrange(pos as int, pos + 12) + c@);
    proof {
        assert forall|p: Seq<u8>|
            #![trigger chunk_bytes(sig, 0, p)]
            p.len() <= u32::MAX && starts_with(bytes@, pos as int, chunk_bytes(sig, 0, p)) implies c@ == p by {
            lemma_starts_with_split(bytes@, pos as int, chunk_header_bytes(sig, 0, p.len() as u32), p);
        }
    }
    Ok((c, end))
}

//================================================================================
// What reads back
//================================================================================

/// Field type `t` is stored as a sub-chunk of its struct.
pub open spec fn is_chunk_field(t: TagFieldType) -> bool {
    t == TagFieldType::Struct || t == TagFieldType::Array || t == TagFieldType::Block || t
        == TagFieldType::TagReference || t == TagFieldType::StringId || t == TagFieldType::OldStringId || t
        == TagFieldType::Data || t == TagFieldType::ApiInterop || t == TagFieldType::PageableResource
}

/// Struct `s` has a field whose type carries a sub-chunk.
pub open spec fn struct_expects_children(layout: TagLayout, s: int) -> bool {
    exists|g: int|
        #![trigger layout.field_of_struct(s, g)]
        layout.field_of_struct(s, g) && layout.field_types@[layout.fields@[g].type_index as int].needs_sub_chunk != 0
}

/// The contents of `d`'s `tgst` chunk.
pub open spec fn struct_content(d: TagStructData) -> Seq<u8> {
    sub_chunks_bytes(d, d.sub_chunks@.len())
}

/// Payload `c` of a field `f` reads back as stored: it is of the
/// field's kind, fits the size words, and what is nested reads back.
pub open spec fn entry_readable(layout: TagLayout, f: crate::layout::TagFieldLayout, c: TagSubChunkContent) -> bool
    decreases c, 0int,
{
    match c {
        TagSubChunkContent::Struct(n) => {
            &&& f.field_type == TagFieldType::Struct
            &&& n.struct_index == f.definition
            &&& struct_readable(layout, n)
            &&& struct_expects_children(layout, f.definition as int) ==> struct_content(n).len() > 0
        },
        TagSubChunkContent::Array(els) => {
            let a = layout.array_layouts@[f.definition as int];
            &&& f.field_type == TagFieldType::Array
            &&& els@.len() == a.count
            &&& forall|i: int|
                0 <= i < els@.len() ==> {
                    &&& (#[trigger] els@[i]).struct_index == a.struct_index
                    &&& entries_from(layout, els@[i], layout.first_field(a.struct_index as int), 0)
                }
        },
        TagSubChunkContent::Block(b) => f.field_type == TagFieldType::Block && block_readable(layout, b, f.definition),
        TagSubChunkContent::TagReference(p) => f.field_type == TagFieldType::TagReference && p@.len() <= u32::MAX,
        TagSubChunkContent::StringId(p) => f.field_type == TagFieldType::StringId && p@.len() <= u32::MAX,
        TagSubChunkContent::OldStringId(p) => f.field_type == TagFieldType::OldStringId && p@.len() <= u32::MAX,
        TagSubChunkContent::Data(p) => f.field_type == TagFieldType::Data && p@.len() <= u32::MAX,
        TagSubChunkContent::ApiInterop(p) => f.field_type == TagFieldType::ApiInterop && p@.len() <= u32::MAX,
        TagSubChunkContent::Resource(r) => f.field_type == TagFieldType::PageableResource && resource_readable(
            layout,
            r,
            f.definition,
        ),
        TagSubChunkContent::EmptyPlaceholder => false,
    }
}

/// A pageable resource of kind `ri` reads back from its chunk.
pub open spec fn resource_readable(layout: TagLayout, r: TagResourceChunk, ri: u32) -> bool
    decreases r, 0int,
{
    match r {
        TagResourceChunk::Null => true,
        TagResourceChunk::Exploded { exploded, struct_data } => {
            &&& struct_data.struct_index == layout.resource_layouts@[ri as int].struct_index
            &&& struct_readable(layout, struct_data)
            &&& exploded@.len() <= u32::MAX
            &&& chunk_bytes(TGDT, 0, exploded@).len() + struct_chunk(struct_data).len() <= u32::MAX
        },
        TagResourceChunk::Xsync(p) => p@.len() <= u32::MAX,
    }
}

/// The sub-chunks of `d` from `k` on are, in order, one per field of
/// `fi..` that is stored as a sub-chunk, each owned by its field and
/// reading back against it; no other field of the run needs a sub-chunk.
pub open spec fn entries_from(layout: TagLayout, d: TagStructData, fi: int, k: int) -> bool
    decreases d, 1int, layout.fields@.len() - fi,
{
    if fi < 0 || fi >= layout.fields@.len() {
        false
    } else if layout.fields@[fi].field_type == TagFieldType::Terminator {
        k == d.sub_chunks@.len()
    } else if is_chunk_field(layout.fields@[fi].field_type) {
        &&& 0 <= k < d.sub_chunks@.len()
        &&& d.sub_chunks@[k].field_index == Some(fi as u32)
        &&& entry_readable(layout, layout.fields@[fi], d.sub_chunks@[k].content)
        &&& entries_from(layout, d, fi + 1, k + 1)
    } else {
        &&& layout.fields@[fi].type_index < layout.field_types@.len()
        &&& layout.field_types@[layout.fields@[fi].type_index as int].needs_sub_chunk == 0
        &&& entries_from(layout, d, fi + 1, k)
    }
}

/// A struct reads back from its `tgst` chunk: its contents fit the size
/// word; empty contents mean no sub-chunks, otherwise they are its
/// sub-chunks field by field.
pub open spec fn struct_readable(layout: TagLayout, d: TagStructData) -> bool
    decreases d, 2int, 0int,
{
    &&& d.struct_index < layout.struct_layouts@.len()
    &&& struct_content(d).len() <= u32::MAX
    &&& struct_content(d).len() == 0 ==> d.sub_chunks@.len() == 0
    &&& struct_content(d).len() > 0 ==> entries_from(layout, d, layout.first_field(d.struct_index as int), 0)
}

/// The body of `b`'s `tgbl` chunk.
pub open spec fn block_content(b: TagBlockData) -> Seq<u8> {
    block_body(b.elements@.len(), b.flags, b.raw_data@) + if b.flags & 1 == 0 {
        structs_chunks(b.elements@, b.elements@.len())
    } else {
        Seq::empty()
    }
}

/// A block of kind `bi` reads back from its `tgbl` chunk: it is a
/// little-endian block of that kind with no classic header, its bytes are
/// its elements' records of the block struct's size, and its elements are
/// instances of that struct: bare ones for a simple block, ones that read
/// back for a complex block.
pub open spec fn block_readable(layout: TagLayout, b: TagBlockData, bi: u32) -> bool
    decreases b, 3int, 0int,
{
    let si = layout.block_layouts@[bi as int].struct_index;
    &&& b.block_index == bi
    &&& b.endian == Endian::Le
    &&& b.classic_block_header is None
    &&& b.flags & 1 != 0 ==> forall|k: int|
        0 <= k < b.elements@.len() ==> (#[trigger] b.elements@[k]).struct_index == si && b.elements@[k].sub_chunks@.len()
            == 0
    &&& b.elements@.len() <= u32::MAX
    &&& b.raw_data@.len() == b.elements@.len() * layout.struct_layouts@[si as int].size
    &&& block_content(b).len() <= u32::MAX
    &&& b.flags & 1 == 0 ==> forall|k: int|
        0 <= k < b.elements@.len() ==> {
            &&& (#[trigger] b.elements@[k]).struct_index == si
            &&& struct_readable(layout, b.elements@[k])
        }
}

/// `a` and `b` are the same struct: the same index, and sub-chunks owned
/// by the same fields with the same payloads.
pub open spec fn same_struct(a: TagStructData, b: TagStructData) -> bool
    decreases a, 1int,
{
    &&& a.struct_index == b.struct_index
    &&& a.sub_chunks@.len() == b.sub_chunks@.len()
    &&& forall|k: int|
        0 <= k < a.sub_chunks@.len() ==> {
            &&& (#[trigger] a.sub_chunks@[k]).field_index == b.sub_chunks@[k].field_index
            &&& same_content(a.sub_chunks@[k].content, b.sub_chunks@[k].content)
        }
}

/// `a` and `b` are the same payload: the same kind, the same bytes, and
/// the same nested data.
pub open spec fn same_content(a: TagSubChunkContent, b: TagSubChunkContent) -> bool
    decreases a, 0int,
{
    match (a, b) {
        (TagSubChunkContent::EmptyPlaceholder, TagSubChunkContent::EmptyPlaceholder) => true,
        (TagSubChunkContent::Struct(x), TagSubChunkContent::Struct(y)) => same_struct(x, y),
        (TagSubChunkContent::Block(x), TagSubChunkContent::Block(y)) => same_block(x, y),
        (TagSubChunkContent::Array(x), TagSubChunkContent::Array(y)) => same_structs(x@, y@),
        (TagSubChunkContent::TagReference(x), TagSubChunkContent::TagReference(y)) => x@ == y@,
        (TagSubChunkContent::StringId(x), TagSubChunkContent::StringId(y)) => x@ == y@,
        (TagSubChunkContent::OldStringId(x), TagSubChunkContent::OldStringId(y)) => x@ == y@,
        (TagSubChunkContent::Data(x), TagSubChunkContent::Data(y)) => x@ == y@,
        (TagSubChunkContent::ApiInterop(x), TagSubChunkContent::ApiInterop(y)) => x@ == y@,
        (TagSubChunkContent::Resource(x), TagSubChunkContent::Resource(y)) => match (x, y) {
            (TagResourceChunk::Null, TagResourceChunk::Null) => true,
            (
                TagResourceChunk::Exploded { exploded: e1, struct_data: s1 },
                TagResourceChunk::Exploded { exploded: e2, struct_data: s2 },
            ) => e1@ == e2@ && same_struct(s1, s2),
            (TagResourceChunk::Xsync(p1), TagResourceChunk::Xsync(p2)) => p1@ == p2@,
            _ => false,
        },
        _ => false,
    }
}

/// `a` and `b` hold the same structs in the same order.
pub open spec fn same_structs(a: Seq<TagStructData>, b: Seq<TagStructData>) -> bool
    decreases a, 2int,
{
    &&& a.len() == b.len()
    &&& forall|k: int| 0 <= k < a.len() ==> same_struct(#[trigger] a[k], b[k])
}

/// `a` and `b` are the same block: the same kind, flags, bytes, byte
/// order, classic header and elements.
pub open spec fn same_block(a: TagBlockData, b: TagBlockData) -> bool
    decreases a, 3int,
{
    &&& a.block_index == b.block_index
    &&& a.flags == b.flags
    &&& a.raw_data@ == b.raw_data@
    &&& a.endian == b.endian
    &&& match (a.classic_block_header, b.classic_block_header) {
        (None, None) => true,
        (Some(x), Some(y)) => x@ == y@,
        _ => false,
    }
    &&& same_structs(a.elements@, b.elements@)
}

/// The sub-chunks `a` are, one for one, the same as the first ones of
/// `b`: owned by the same fields, with the same payloads.
spec fn same_prefix(a: Seq<TagSubChunkEntry>, b: Seq<TagSubChunkEntry>) -> bool {
    &&& a.len() <= b.len()
    &&& forall|k: int|
        0 <= k < a.len() ==> {
            &&& (#[trigger] a[k]).field_index == b[k].field_index
            &&& same_content(a[k].content, b[k].content)
        }
}

/// A chunk header's words are read back from its bytes.
proof fn lemma_header_words(a: u32, b: u32, c: u32, x: u32, y: u32, z: u32)
    requires
        chunk_header_bytes(a, b, c) == chunk_header_bytes(x, y, z),
    ensures
        a == x,
        b == y,
        c == z,
{
    let h = chunk_header_bytes(a, b, c);
    assert(h.subrange(0, 4) =~= u32_le_bytes(a));
    assert(h.subrange(4, 8) =~= u32_le_bytes(b));
    assert(h.subrange(8, 12) =~= u32_le_bytes(c));
    assert(chunk_header_bytes(x, y, z).subrange(0, 4) =~= u32_le_bytes(x));
    assert(chunk_header_bytes(x, y, z).subrange(4, 8) =~= u32_le_bytes(y));
    assert(chunk_header_bytes(x, y, z).subrange(8, 12) =~= u32_le_bytes(z));
    lemma_le_u32_roundtrip(a);
    lemma_le_u32_roundtrip(b);
    lemma_le_u32_roundtrip(c);
    lemma_le_u32_roundtrip(x);
    lemma_le_u32_roundtrip(y);
    lemma_le_u32_roundtrip(z);
}

/// A stored sub-chunk is [`content_chunk`] of its payload.
proof fn lemma_sub_chunk_is_content(d: TagStructData, k: int)
    requires
        0 <= k < d.sub_chunks@.len(),
    ensures
        sub_chunk_bytes(d, k) == content_chunk(d.sub_chunks@[k].content),
{
    match d.sub_chunks@[k].content {
        TagSubChunkContent::Resource(r) => {
            match r {
                TagResourceChunk::Null => {},
                TagResourceChunk::Exploded { .. } => {},
                TagResourceChunk::Xsync(_) => {},
            }
        },
        _ => {},
    }
}

/// The sub-chunks `0..n` of `d` at `pos` hold sub-chunk `k < n` where
/// those before it end.
proof fn lemma_starts_with_sub_chunk(bytes: Seq<u8>, pos: int, d: TagStructData, k: int, n: nat)
    requires
        0 <= k < n <= d.sub_chunks@.len(),
        starts_with(bytes, pos, sub_chunks_bytes(d, n)),
    ensures
        starts_with(bytes, pos + sub_chunks_bytes(d, k as nat).len(), sub_chunk_bytes(d, k)),
    decreases n - k,
{
    lemma_starts_with_split(bytes, pos, sub_chunks_bytes(d, (n - 1) as nat), sub_chunk_bytes(d, n - 1));
    if k + 1 < n {
        lemma_starts_with_sub_chunk(bytes, pos, d, k, (n - 1) as nat);
    }
}

/// The `tgst` chunks `0..n` at `pos` hold chunk `k < n` where those
/// before it end; likewise the inline sub-chunks of array elements.
proof fn lemma_starts_with_struct(bytes: Seq<u8>, pos: int, els: Seq<TagStructData>, k: int, n: nat)
    requires
        0 <= k < n <= els.len(),
    ensures
        starts_with(bytes, pos, structs_chunks(els, n)) ==> starts_with(
            bytes,
            pos + structs_chunks(els, k as nat).len(),
            struct_chunk(els[k]),
        ),
        starts_with(bytes, pos, elements_sub_chunks(els, n)) ==> starts_with(
            bytes,
            pos + elements_sub_chunks(els, k as nat).len(),
            struct_content(els[k]),
        ),
    decreases n - k,
{
    if starts_with(bytes, pos, structs_chunks(els, n)) {
        lemma_starts_with_split(bytes, pos, structs_chunks(els, (n - 1) as nat), struct_chunk(els[n - 1]));
    }
    if starts_with(bytes, pos, elements_sub_chunks(els, n)) {
        lemma_starts_with_split(bytes, pos, elements_sub_chunks(els, (n - 1) as nat), struct_content(els[n - 1]));
    }
    if k + 1 < n {
        lemma_starts_with_struct(bytes, pos, els, k, (n - 1) as nat);
    }
}

/// Whether struct `s` has a field whose type carries a sub-chunk: such a
/// struct's `tgst` may be preceded by empty placeholder `tgst` chunks.
fn expects_children(layout: &TagLayout, s: u32) -> (r: bool)
    requires
        layout.wf(),
        s < layout.struct_layouts@.len(),
    ensures
        r == struct_expects_children(*layout, s as int),
{
    let first = layout.struct_layouts[s as usize].first_field_index as usize;
    let ghost t = lemma_run_has_end(layout, s as int, first as int);
    let mut fi = first;
    while layout.fields[fi].field_type != TagFieldType::Terminator
        invariant
            layout.wf(),
            s < layout.struct_layouts@.len(),
            first == layout.first_field(s as int),
            first <= fi <= t < layout.fields@.len(),
            layout.fields@[t].field_type == TagFieldType::Terminator,
            layout.no_terminator_between(first as int, fi as int),
            forall|g: int|
                #![trigger layout.field_of_struct(s as int, g)]
                layout.field_of_struct(s as int, g) && g < fi ==> layout.field_types@[layout.fields@[g].type_index as int].needs_sub_chunk
                    == 0,
        decreases t - fi,
    {
        proof {
            assert(layout.field_of_struct(s as int, fi as int));
            assert(layout.field_refs_valid(fi as int));
        }
        let ti = layout.fields[fi].type_index as usize;
        if layout.field_types[ti].needs_sub_chunk != 0 {
            return true;
        }
        fi = fi + 1;
    }
    proof {
        assert forall|g: int|
            #![trigger layout.field_of_struct(s as int, g)]
            layout.field_of_struct(s as int, g) implies layout.field_types@[layout.fields@[g].type_index as int].needs_sub_chunk
                == 0 by {
            if g >= fi {
                assert(layout.fields@[fi as int].field_type == TagFieldType::Terminator);
            }
        }
    }
    false
}

/// The bytes a sub-chunk with payload `c` is stored as (see
/// [`sub_chunk_bytes`]).
pub open spec fn content_chunk(c: TagSubChunkContent) -> Seq<u8> {
    match c {
        TagSubChunkContent::EmptyPlaceholder => chunk_header_bytes(TGST, 0, 0),
        TagSubChunkContent::Struct(n) => struct_chunk(n),
        TagSubChunkContent::Block(b) => block_chunk(b),
        TagSubChunkContent::Array(els) => elements_sub_chunks(els@, els@.len()),
        TagSubChunkContent::TagReference(p) => chunk_bytes(TGRF, 0, p@),
        TagSubChunkContent::StringId(p) => chunk_bytes(TGSI, 0, p@),
        TagSubChunkContent::OldStringId(p) => chunk_bytes(TGSI, 0, p@),
        TagSubChunkContent::Data(p) => chunk_bytes(TGDA, 0, p@),
        TagSubChunkContent::ApiInterop(p) => chunk_bytes(TI_API, 0, p@),
        TagSubChunkContent::Resource(r) => resource_chunk(r),
    }
}

/// The bytes a pageable resource is stored as.
pub open spec fn resource_chunk(r: TagResourceChunk) -> Seq<u8> {
    match r {
        TagResourceChunk::Null => chunk_header_bytes(TG_NULL, 0, 0),
        TagResourceChunk::Exploded { exploded, struct_data } => chunk_bytes(
            TGRC,
            0,
            chunk_bytes(TGDT, 0, exploded@) + struct_chunk(struct_data),
        ),
        TagResourceChunk::Xsync(p) => chunk_bytes(TGXC, 0, p@),
    }
}

/// Pushing a sub-chunk with payload `c` appends [`content_chunk`]`(c)`.
proof fn lemma_entries_push_content(si: u32, before: Vec<TagSubChunkEntry>, after: Vec<TagSubChunkEntry>, e: TagSubChunkEntry)
    requires
        after@ == before@.push(e),
    ensures
        entries_bytes(si, after) == entries_bytes(si, before) + content_chunk(e.content),
{
    lemma_entries_push(si, before, after, e);
    let n = TagStructData { struct_index: si, sub_chunks: after };
    assert(n.sub_chunks@[before@.len() as int] == e);
    match e.content {
        TagSubChunkContent::Resource(r) => {
            match r {
                TagResourceChunk::Null => {},
                TagResourceChunk::Exploded { .. } => {},
                TagResourceChunk::Xsync(_) => {},
            }
        },
        _ => {},
    }
}

/// Field `fi` of struct `si` at `cur`: for a field stored as a
/// sub-chunk, its payload, and the position after it.
#[verifier::rlimit(60)]
#[verifier::spinoff_prover]
fn read_field(
    layout: &TagLayout,
    si: u32,
    fi: usize,
    bytes: &[u8],
    cur: usize,
    Ghost(ranks): Ghost<Seq<nat>>,
) -> (r: Result<(Option<TagSubChunkContent>, usize), TagReadError>)
    requires
        layout.wf(),
        inline_ranked(*layout, ranks),
        layout.field_of_struct(si as int, fi as int),
        cur <= bytes@.len(),
    ensures
        r matches Ok((content, next)) ==> {
            &&& cur <= next <= bytes@.len()
            &&& match content {
                Some(c) => content_chunk(c) == bytes@.subrange(cur as int, next as int) && content_ok(
                    *layout,
                    fi as int,
                    c,
                ),
                None => next == cur,
            }
            &&& content is Some <==> is_chunk_field(layout.fields@[fi as int].field_type)
        },
        forall|c: TagSubChunkContent|
            #![trigger entry_readable(*layout, layout.fields@[fi as int], c)]
            is_chunk_field(layout.fields@[fi as int].field_type) && entry_readable(*layout, layout.fields@[fi as int], c)
                && starts_with(bytes@, cur as int, content_chunk(c)) ==> (r matches Ok((got, next)) && next == cur
                + content_chunk(c).len() && (got matches Some(g) && same_content(g, c))),
        !is_chunk_field(layout.fields@[fi as int].field_type) && layout.field_types@[layout.fields@[fi as int].type_index as int].needs_sub_chunk
            == 0 ==> r == Ok::<(Option<TagSubChunkContent>, usize), TagReadError>((None, cur)),
    decreases bytes@.len() - cur, ranks[si as int] + 1, 1int,
{
    let ghost s = si as int;
    proof {
        assert(layout.field_refs_valid(fi as int));
    }
    let ft = layout.fields[fi].field_type;
    let def = layout.fields[fi].definition;
    let ti = layout.fields[fi].type_index;
    let ghost f = layout.fields@[fi as int];
    match ft {
        TagFieldType::Struct => {
            let res = read_struct(layout, def, bytes, cur, Ghost(ranks));
            proof {
                assert forall|c: TagSubChunkContent|
                    #![trigger entry_readable(*layout, f, c)]
                    entry_readable(*layout, f, c) && starts_with(bytes@, cur as int, content_chunk(c)) implies (res matches Ok(
                        (d, next),
                    ) && next == cur + content_chunk(c).len() && same_content(TagSubChunkContent::Struct(d), c)) by {
                    if let TagSubChunkContent::Struct(n) = c {
                        assert(struct_readable(*layout, n));
                    }
                }
            }
            let (nested, next) = match res {
                Ok(x) => x,
                Err(e) => {
                    return Err(e);
                },
            };
            Ok((Some(TagSubChunkContent::Struct(nested)), next))
        },
        TagFieldType::Array => {
            let res = read_array(layout, si, fi, bytes, cur, Ghost(ranks));
            proof {
                assert forall|c: TagSubChunkContent|
                    #![trigger entry_readable(*layout, f, c)]
                    entry_readable(*layout, f, c) && starts_with(bytes@, cur as int, content_chunk(c)) implies (res matches Ok(
                        (els, next),
                    ) && next == cur + content_chunk(c).len() && same_content(TagSubChunkContent::Array(els), c)) by {
                    if let TagSubChunkContent::Array(e) = c {
                    }
                }
            }
            let (elems, next) = match res {
                Ok(x) => x,
                Err(e) => {
                    return Err(e);
                },
            };
            Ok((Some(TagSubChunkContent::Array(elems)), next))
        },
        TagFieldType::Block => {
            let res = read_block(layout, def, bytes, cur, Ghost(ranks));
            proof {
                assert forall|c: TagSubChunkContent|
                    #![trigger entry_readable(*layout, f, c)]
                    entry_readable(*layout, f, c) && starts_with(bytes@, cur as int, content_chunk(c)) implies (res matches Ok(
                        (got, next),
                    ) && next == cur + content_chunk(c).len() && same_content(TagSubChunkContent::Block(got), c)) by {
                    if let TagSubChunkContent::Block(b) = c {
                        assert(block_readable(*layout, b, def));
                    }
                }
            }
            let (b, next) = match res {
                Ok(x) => x,
                Err(e) => {
                    return Err(e);
                },
            };
            Ok((Some(TagSubChunkContent::Block(b)), next))
        },
        TagFieldType::TagReference => {
            let (c, next) = read_leaf_chunk(bytes, cur, TGRF)?;
            Ok((Some(TagSubChunkContent::TagReference(c)), next))
        },
        TagFieldType::StringId => {
            let (c, next) = read_leaf_chunk(bytes, cur, TGSI)?;
            Ok((Some(TagSubChunkContent::StringId(c)), next))
        },
        TagFieldType::OldStringId => {
            let (c, next) = read_leaf_chunk(bytes, cur, TGSI)?;
            Ok((Some(TagSubChunkContent::OldStringId(c)), next))
        },
        TagFieldType::Data => {
            let (c, next) = read_leaf_chunk(bytes, cur, TGDA)?;
            Ok((Some(TagSubChunkContent::Data(c)), next))
        },
        TagFieldType::ApiInterop => {
            let (c, next) = read_leaf_chunk(bytes, cur, TI_API)?;
            Ok((Some(TagSubChunkContent::ApiInterop(c)), next))
        },
        TagFieldType::PageableResource => {
            let res = read_resource(layout, def, bytes, cur, Ghost(ranks));
            proof {
                assert forall|c: TagSubChunkContent|
                    #![trigger entry_readable(*layout, f, c)]
                    entry_readable(*layout, f, c) && starts_with(bytes@, cur as int, content_chunk(c)) implies (res matches Ok(
                        (got, next),
                    ) && next == cur + content_chunk(c).len() && same_content(TagSubChunkContent::Resource(got), c)) by {
                    if let TagSubChunkContent::Resource(rc) = c {
                        assert(resource_readable(*layout, rc, def));
                    }
                }
            }
            let (rc, next) = match res {
                Ok(x) => x,
                Err(e) => {
                    return Err(e);
                },
            };
            Ok((Some(TagSubChunkContent::Resource(rc)), next))
        },
        _ => {
            if layout.field_types[ti as usize].needs_sub_chunk != 0 {
                return Err(TagReadError::UnhandledSubChunkField { field_index: fi as u32 });
            }
            Ok((None, cur))
        },
    }
}

/// The inline array that field `fi` of struct `si` holds, at `cur`: its
/// elements' sub-chunks in turn, with no `tgst` chunk of their own; the
/// elements and the position after them.
#[verifier::rlimit(40)]
#[verifier::spinoff_prover]
fn read_array(
    layout: &TagLayout,
    si: u32,
    fi: usize,
    bytes: &[u8],
    cur: usize,
    Ghost(ranks): Ghost<Seq<nat>>,
) -> (r: Result<(Vec<TagStructData>, usize), TagReadError>)
    requires
        layout.wf(),
        inline_ranked(*layout, ranks),
        layout.field_of_struct(si as int, fi as int),
        layout.fields@[fi as int].field_type == TagFieldType::Array,
        cur <= bytes@.len(),
    ensures
        r matches Ok((els, next)) ==> {
            &&& cur <= next <= bytes@.len()
            &&& content_chunk(TagSubChunkContent::Array(els)) == bytes@.subrange(cur as int, next as int)
            &&& content_ok(*layout, fi as int, TagSubChunkContent::Array(els))
        },
        forall|c: TagSubChunkContent|
            #![trigger entry_readable(*layout, layout.fields@[fi as int], c)]
            entry_readable(*layout, layout.fields@[fi as int], c) && starts_with(bytes@, cur as int, content_chunk(c)) ==> (r matches Ok(
                (els, next),
            ) && next == cur + content_chunk(c).len() && same_structs(els@, c->Array_0@)),
    decreases bytes@.len() - cur, ranks[si as int] + 1, 0int,
{
    let ghost s = si as int;
    proof {
        assert(layout.field_refs_valid(fi as int));
    }
    let def = layout.fields[fi].definition;
    let ghost f = layout.fields@[fi as int];
    let asi = layout.array_layouts[def as usize].struct_index;
    let count = layout.array_layouts[def as usize].count;
    proof {
        assert(ranks[asi as int] < ranks[s]);
    }
    let mut elems: Vec<TagStructData> = Vec::new();
    let mut at = cur;
    let mut i: u32 = 0;
    assert(elements_sub_chunks(elems@, 0) =~= Seq::<u8>::empty());
    assert(bytes@.subrange(cur as int, cur as int) =~= Seq::<u8>::empty());
    while i < count
        invariant
            layout.wf(),
            inline_ranked(*layout, ranks),
            asi < layout.struct_layouts@.len(),
            s == si,
            si < layout.struct_layouts@.len(),
            ranks.len() == layout.struct_layouts@.len(),
            ranks[asi as int] < ranks[s],
            f == layout.fields@[fi as int],
            f.field_type == TagFieldType::Array,
            asi == layout.array_layouts@[f.definition as int].struct_index,
            count == layout.array_layouts@[f.definition as int].count,
            cur <= at <= bytes@.len(),
            elems@.len() == i,
            i <= count,
            elements_sub_chunks(elems@, i as nat) == bytes@.subrange(cur as int, at as int),
            forall|j: int|
                0 <= j < i ==> (#[trigger] elems@[j]).struct_index == asi && struct_ok(*layout, elems@[j]),
            forall|c: TagSubChunkContent|
                #![trigger entry_readable(*layout, f, c)]
                entry_readable(*layout, f, c) && starts_with(bytes@, cur as int, content_chunk(c)) ==> at == cur
                    + elements_sub_chunks(c->Array_0@, i as nat).len() && forall|j: int|
                    0 <= j < i ==> same_struct(#[trigger] elems@[j], c->Array_0@[j]),
        decreases count - i,
    {
        let res = read_sub_chunks(layout, asi, bytes, at, Ghost(ranks));
        proof {
            assert forall|c: TagSubChunkContent|
                #![trigger entry_readable(*layout, f, c)]
                entry_readable(*layout, f, c) && starts_with(bytes@, cur as int, content_chunk(c)) implies (res matches Ok(
                    (subs, next),
                ) && next == cur + elements_sub_chunks(c->Array_0@, (i + 1) as nat).len() && same_struct(
                    (TagStructData { struct_index: asi, sub_chunks: subs }),
                    c->Array_0@[i as int],
                )) by {
                let els = c->Array_0@;
                lemma_starts_with_struct(bytes@, cur as int, els, i as int, count as nat);
                assert(entries_from(*layout, els[i as int], layout.first_field(asi as int), 0));
            }
        }
        let (subs, next) = match res {
            Ok(x) => x,
            Err(e) => {
                return Err(e);
            },
        };
        let el = TagStructData { struct_index: asi, sub_chunks: subs };
        let ghost before = elems@;
        elems.push(el);
        proof {
            lemma_structs_prefix(before, elems@, i as nat);
            assert(elems@[i as int] == el);
            assert forall|j: int| 0 <= j < i implies elems@[j] == before[j] by {}
            assert(bytes@.subrange(cur as int, next as int) =~= bytes@.subrange(cur as int, at as int)
                + bytes@.subrange(at as int, next as int));
        }
        at = next;
        i = i + 1;
    }
    proof {
        assert forall|c: TagSubChunkContent|
            #![trigger entry_readable(*layout, f, c)]
            entry_readable(*layout, f, c) && starts_with(bytes@, cur as int, content_chunk(c)) implies same_structs(
                elems@,
                c->Array_0@,
            ) by {
            assert(same_structs(elems@, c->Array_0@));
        }
    }
    Ok((elems, at))
}

/// The sub-chunks of struct `si` at `start`, field by field: a nested
/// struct's `tgst` (after any empty placeholders), a block's `tgbl`, the
/// elements' sub-chunks of an inline array, a leaf chunk, or a pageable
/// resource; and the position after them.
fn read_sub_chunks(
    layout: &TagLayout,
    si: u32,
    bytes: &[u8],
    start: usize,
    Ghost(ranks): Ghost<Seq<nat>>,
) -> (r: Result<(Vec<TagSubChunkEntry>, usize), TagReadError>)
    requires
        layout.wf(),
        inline_ranked(*layout, ranks),
        si < layout.struct_layouts@.len(),
        start <= bytes@.len(),
    ensures
        r matches Ok((subs, end)) ==> {
            &&& start <= end <= bytes@.len()
            &&& entries_bytes(si, subs) == bytes@.subrange(start as int, end as int)
            &&& forall|k: int| 0 <= k < subs@.len() ==> entry_ok(*layout, si as int, #[trigger] subs@[k])
        },
        forall|w: TagStructData|
            #![trigger entries_from(*layout, w, layout.first_field(si as int), 0)]
            w.struct_index == si && entries_from(*layout, w, layout.first_field(si as int), 0) && starts_with(
                bytes@,
                start as int,
                struct_content(w),
            ) ==> (r matches Ok((subs, end)) && end == start + struct_content(w).len() && same_struct(
                (TagStructData { struct_index: si, sub_chunks: subs }),
                w,
            )),
    decreases bytes@.len() - start, ranks[si as int] + 1, 2int,
{
    let ghost s = si as int;
    let first = layout.struct_layouts[si as usize].first_field_index as usize;
    let ghost t = lemma_run_has_end(layout, s, first as int);
    let mut entries: Vec<TagSubChunkEntry> = Vec::new();
    let mut cur = start;
    let mut fi = first;
    assert(entries_bytes(si, entries) =~= Seq::<u8>::empty());
    assert(bytes@.subrange(start as int, start as int) =~= Seq::<u8>::empty());
    while layout.fields[fi].field_type != TagFieldType::Terminator
        invariant
            layout.wf(),
            inline_ranked(*layout, ranks),
            s == si,
            si < layout.struct_layouts@.len(),
            first == layout.first_field(s),
            first <= fi <= t < layout.fields@.len(),
            layout.fields@[t].field_type == TagFieldType::Terminator,
            layout.no_terminator_between(first as int, fi as int),
            start <= cur <= bytes@.len(),
            entries_bytes(si, entries) == bytes@.subrange(start as int, cur as int),
            forall|k: int| 0 <= k < entries@.len() ==> entry_ok(*layout, s, #[trigger] entries@[k]),
            forall|w: TagStructData|
                #![trigger entries_from(*layout, w, first as int, 0)]
                w.struct_index == si && entries_from(*layout, w, first as int, 0) && starts_with(
                    bytes@,
                    start as int,
                    struct_content(w),
                ) ==> {
                    &&& entries_from(*layout, w, fi as int, entries@.len() as int)
                    &&& cur == start + sub_chunks_bytes(w, entries@.len()).len()
                    &&& same_prefix(entries@, w.sub_chunks@)
                },
        decreases t - fi,
    {
        proof {
            assert(layout.field_of_struct(s, fi as int));
            assert(layout.field_refs_valid(fi as int));
            assert(fi < u32::MAX);
        }
        let ft = layout.fields[fi].field_type;
        let def = layout.fields[fi].definition;
        if ft == TagFieldType::Struct && expects_children(layout, def) {
            loop
                invariant
                    layout.wf(),
                    inline_ranked(*layout, ranks),
                    s == si,
                    si < layout.struct_layouts@.len(),
                    first == layout.first_field(s),
                    first <= fi <= t < layout.fields@.len(),
                    layout.fields@[t].field_type == TagFieldType::Terminator,
                    layout.no_terminator_between(first as int, fi as int),
                    layout.fields@[fi as int].field_type == TagFieldType::Struct,
                    def == layout.fields@[fi as int].definition,
                    struct_expects_children(*layout, def as int),
                    start <= cur <= bytes@.len(),
                    entries_bytes(si, entries) == bytes@.subrange(start as int, cur as int),
                    forall|k: int| 0 <= k < entries@.len() ==> entry_ok(*layout, s, #[trigger] entries@[k]),
                    forall|w: TagStructData|
                        #![trigger entries_from(*layout, w, first as int, 0)]
                        w.struct_index == si && entries_from(*layout, w, first as int, 0) && starts_with(
                            bytes@,
                            start as int,
                            struct_content(w),
                        ) ==> {
                            &&& entries_from(*layout, w, fi as int, entries@.len() as int)
                            &&& cur == start + sub_chunks_bytes(w, entries@.len()).len()
                            &&& same_prefix(entries@, w.sub_chunks@)
                        },
                decreases bytes@.len() - cur,
            {
                let res = read_chunk_header(bytes, cur);
                proof {
                    assert forall|w: TagStructData|
                        #![trigger entries_from(*layout, w, first as int, 0)]
                        w.struct_index == si && entries_from(*layout, w, first as int, 0) && starts_with(
                            bytes@,
                            start as int,
                            struct_content(w),
                        ) implies (res matches Ok((sig, _, size)) && sig == TGST && size != 0) by {
                        let k = entries@.len() as int;
                        lemma_starts_with_sub_chunk(bytes@, start as int, w, k, w.sub_chunks@.len());
                        lemma_sub_chunk_is_content(w, k);
                        let n = w.sub_chunks@[k].content->Struct_0;
                        assert(entry_readable(*layout, layout.fields@[fi as int], w.sub_chunks@[k].content));
                        let c = struct_content(n);
                        lemma_starts_with_split(bytes@, cur as int, chunk_header_bytes(TGST, c.len() as u32, c.len() as u32), c);
                    }
                }
                let (sig, ver, size) = match res {
                    Ok(x) => x,
                    Err(e) => {
                        return Err(e);
                    },
                };
                if sig != TGST {
                    return Err(
                        TagReadError::BadChunkSignature {
                            offset: cur as u64,
                            expected: u32_to_be(TGST),
                            got: u32_to_be(sig),
                        },
                    );
                }
                if size != 0 {
                    break;
                }
                if ver != 0 {
                    return Err(TagReadError::BadChunkVersion { offset: cur as u64, version: ver });
                }
                let e = TagSubChunkEntry { field_index: None, content: TagSubChunkContent::EmptyPlaceholder };
                let ghost before = entries;
                entries.push(e);
                proof {
                    lemma_entries_push_content(si, before, entries, e);
                    assert(bytes@.subrange(start as int, cur + 12) =~= bytes@.subrange(start as int, cur as int)
                        + bytes@.subrange(cur as int, cur + 12));
                    assert(forall|k: int| 0 <= k < before@.len() ==> entries@[k] == before@[k]);
                    assert(entries@[before@.len() as int] == e);
                }
                cur = cur + 12;
            }
        }
        let ghost cur0 = cur;
        let res = read_field(layout, si, fi, bytes, cur, Ghost(ranks));
        proof {
            assert forall|w: TagStructData|
                #![trigger entries_from(*layout, w, first as int, 0)]
                w.struct_index == si && entries_from(*layout, w, first as int, 0) && starts_with(
                    bytes@,
                    start as int,
                    struct_content(w),
                ) implies (res matches Ok((content, next)) && entries_from(
                    *layout,
                    w,
                    fi + 1,
                    entries@.len() + (if content is Some {
                        1int
                    } else {
                        0int
                    }),
                ) && next == start + sub_chunks_bytes(w, (entries@.len() + (if content is Some {
                    1int
                } else {
                    0int
                })) as nat).len() && (content matches Some(g) ==> {
                    &&& w.sub_chunks@[entries@.len() as int].field_index == Some(fi as u32)
                    &&& same_content(g, w.sub_chunks@[entries@.len() as int].content)
                })) by {
                let k = entries@.len() as int;
                if is_chunk_field(layout.fields@[fi as int].field_type) {
                    lemma_starts_with_sub_chunk(bytes@, start as int, w, k, w.sub_chunks@.len());
                    lemma_sub_chunk_is_content(w, k);
                    assert(entry_readable(*layout, layout.fields@[fi as int], w.sub_chunks@[k].content));
                }
            }
        }
        let (content, next) = match res {
            Ok(x) => x,
            Err(e) => {
                return Err(e);
            },
        };
        cur = next;
        match content {
            Some(c) => {
                let e = TagSubChunkEntry { field_index: Some(fi as u32), content: c };
                let ghost before = entries;
                entries.push(e);
                proof {
                    lemma_entries_push_content(si, before, entries, e);
                    assert(bytes@.subrange(start as int, cur as int) =~= bytes@.subrange(start as int, cur0 as int)
                        + bytes@.subrange(cur0 as int, cur as int));
                    assert(forall|k: int| 0 <= k < before@.len() ==> entries@[k] == before@[k]);
                    assert(entries@[before@.len() as int] == e);
                    assert(entry_ok(*layout, s, e));
                }
            },
            None => {},
        }
        fi = fi + 1;
    }
    proof {
        assert forall|w: TagStructData|
            #![trigger entries_from(*layout, w, first as int, 0)]
            w.struct_index == si && entries_from(*layout, w, first as int, 0) && starts_with(
                bytes@,
                start as int,
                struct_content(w),
            ) implies cur == start + struct_content(w).len() && same_struct(
                (TagStructData { struct_index: si, sub_chunks: entries }),
                w,
            ) by {
            assert(entries_from(*layout, w, fi as int, entries@.len() as int));
        }
    }
    Ok((entries, cur))
}

/// A `tgst` chunk of struct `si` at `pos`: its version word equals its
/// size; a size of 0 is a struct with no sub-chunks; otherwise its
/// sub-chunks, then any empty placeholder `tgst` chunks up to its end.
#[verifier::rlimit(50)]
#[verifier::spinoff_prover]
fn read_struct(layout: &TagLayout, si: u32, bytes: &[u8], pos: usize, Ghost(ranks): Ghost<Seq<nat>>) -> (r: Result<
    (TagStructData, usize),
    TagReadError,
>)
    requires
        layout.wf(),
        inline_ranked(*layout, ranks),
        si < layout.struct_layouts@.len(),
        pos <= bytes@.len(),
    ensures
        r matches Ok((d, end)) ==> {
            &&& pos <= end <= bytes@.len()
            &&& d.struct_index == si
            &&& struct_chunk(d) == bytes@.subrange(pos as int, end as int)
            &&& struct_ok(*layout, d)
        },
        forall|w: TagStructData|
            #![trigger struct_readable(*layout, w)]
            w.struct_index == si && struct_readable(*layout, w) && starts_with(bytes@, pos as int, struct_chunk(w)) ==> (r matches Ok(
                (d, end),
            ) && end == pos + struct_chunk(w).len() && same_struct(d, w)),
    decreases bytes@.len() - pos, 0int, 0int,
{
    let res = read_chunk_header(bytes, pos);
    proof {
        assert forall|w: TagStructData|
            #![trigger struct_readable(*layout, w)]
            w.struct_index == si && struct_readable(*layout, w) && starts_with(bytes@, pos as int, struct_chunk(w)) implies {
            &&& res == Ok::<(u32, u32, u32), TagReadError>(
                (TGST, struct_content(w).len() as u32, struct_content(w).len() as u32),
            )
            &&& starts_with(bytes@, pos + 12, struct_content(w))
        } by {
            let c = struct_content(w);
            lemma_starts_with_split(bytes@, pos as int, chunk_header_bytes(TGST, c.len() as u32, c.len() as u32), c);
        }
    }
    let (sig, ver, size) = match res {
        Ok(x) => x,
        Err(e) => {
            return Err(e);
        },
    };
    if sig != TGST {
        return Err(TagReadError::BadChunkSignature { offset: pos as u64, expected: u32_to_be(TGST), got: u32_to_be(sig) });
    }
    if ver != size {
        return Err(TagReadError::BadChunkVersion { offset: pos as u64, version: ver });
    }
    let start = pos + 12;
    if size as usize > bytes.len() - start {
        return Err(TagReadError::Truncated { need: size as usize, have: bytes.len() - start });
    }
    let end = start + size as usize;
    if size == 0 {
        let d = TagStructData { struct_index: si, sub_chunks: Vec::new() };
        assert(sub_chunks_bytes(d, 0) =~= Seq::<u8>::empty());
        assert(struct_chunk(d) =~= bytes@.subrange(pos as int, end as int));
        return Ok((d, end));
    }
    let res2 = read_sub_chunks(layout, si, bytes, start, Ghost(ranks));
    proof {
        assert forall|w: TagStructData|
            #![trigger struct_readable(*layout, w)]
            w.struct_index == si && struct_readable(*layout, w) && starts_with(bytes@, pos as int, struct_chunk(w)) implies (res2 matches Ok(
                (subs, e2),
            ) && e2 == end && same_struct((TagStructData { struct_index: si, sub_chunks: subs }), w)) by {
            assert(entries_from(*layout, w, layout.first_field(si as int), 0));
        }
    }
    let (mut entries, mut cur) = match res2 {
        Ok(x) => x,
        Err(e) => {
            return Err(e);
        },
    };
    while cur < end
        invariant
            start <= cur <= bytes@.len(),
            end <= bytes@.len(),
            entries_bytes(si, entries) == bytes@.subrange(start as int, cur as int),
            si < layout.struct_layouts@.len(),
            forall|k: int| 0 <= k < entries@.len() ==> entry_ok(*layout, si as int, #[trigger] entries@[k]),
            forall|w: TagStructData|
                #![trigger struct_readable(*layout, w)]
                w.struct_index == si && struct_readable(*layout, w) && starts_with(bytes@, pos as int, struct_chunk(w)) ==> cur
                    == end && same_struct((TagStructData { struct_index: si, sub_chunks: entries }), w),
        decreases end - cur,
    {
        if end - cur < 12 {
            return Err(TagReadError::ChunkSizeMismatch { ended_at: (cur as u64).wrapping_add(12), expected_end: end as u64 });
        }
        let (tsig, tver, tsize) = read_chunk_header(bytes, cur)?;
        if tsig != TGST || tsize != 0 {
            return Err(TagReadError::ChunkSizeMismatch { ended_at: cur as u64, expected_end: end as u64 });
        }
        if tver != 0 {
            return Err(TagReadError::BadChunkVersion { offset: cur as u64, version: tver });
        }
        let e = TagSubChunkEntry { field_index: None, content: TagSubChunkContent::EmptyPlaceholder };
        let ghost before = entries;
        entries.push(e);
        proof {
            lemma_entries_push_content(si, before, entries, e);
            assert(bytes@.subrange(start as int, cur + 12) =~= bytes@.subrange(start as int, cur as int)
                + bytes@.subrange(cur as int, cur + 12));
            assert(forall|k: int| 0 <= k < before@.len() ==> entries@[k] == before@[k]);
            assert(entries@[before@.len() as int] == e);
        }
        cur = cur + 12;
    }
    if cur != end {
        return Err(TagReadError::ChunkSizeMismatch { ended_at: cur as u64, expected_end: end as u64 });
    }
    let d = TagStructData { struct_index: si, sub_chunks: entries };
    assert(struct_chunk(d) =~= bytes@.subrange(pos as int, end as int)) by {
        assert(bytes@.subrange(pos as int, end as int) =~= bytes@.subrange(pos as int, start as int) + bytes@.subrange(
            start as int,
            end as int,
        ));
    }
    Ok((d, end))
}

/// The parts of a stored `tgbl` body: element count, flags, element
/// bytes, then the elements' `tgst` chunks of a complex block.
proof fn lemma_block_parts(bytes: Seq<u8>, start: int, w: TagBlockData)
    requires
        starts_with(bytes, start, block_content(w)),
    ensures
        le_u32(bytes, start) == w.elements@.len() as u32,
        le_u32(bytes, start + 4) == w.flags,
        starts_with(bytes, start + 8, w.raw_data@),
        starts_with(bytes, start + 8 + w.raw_data@.len(), if w.flags & 1 == 0 {
            structs_chunks(w.elements@, w.elements@.len())
        } else {
            Seq::empty()
        }),
{
    let tail = if w.flags & 1 == 0 {
        structs_chunks(w.elements@, w.elements@.len())
    } else {
        Seq::empty()
    };
    assert(block_content(w) =~= u32_le_bytes(w.elements@.len() as u32) + (u32_le_bytes(w.flags) + (w.raw_data@ + tail)));
    lemma_starts_with_split(bytes, start, u32_le_bytes(w.elements@.len() as u32), u32_le_bytes(w.flags) + (w.raw_data@
        + tail));
    lemma_starts_with_split(bytes, start + 4, u32_le_bytes(w.flags), w.raw_data@ + tail);
    lemma_starts_with_split(bytes, start + 8, w.raw_data@, tail);
    lemma_le_u32_bytes(bytes, start);
    lemma_le_u32_bytes(bytes, start + 4);
    lemma_le_u32_roundtrip(w.elements@.len() as u32);
    lemma_le_u32_roundtrip(w.flags);
}

/// `count` `tgst` chunks of struct `si` at `at`, one per element of a
/// complex block; the elements and the position after them.
fn read_block_structs(
    layout: &TagLayout,
    si: u32,
    count: u32,
    bytes: &[u8],
    at: usize,
    Ghost(ranks): Ghost<Seq<nat>>,
) -> (r: Result<(Vec<TagStructData>, usize), TagReadError>)
    requires
        layout.wf(),
        inline_ranked(*layout, ranks),
        si < layout.struct_layouts@.len(),
        at <= bytes@.len(),
    ensures
        r matches Ok((els, end)) ==> {
            &&& at <= end <= bytes@.len()
            &&& els@.len() == count
            &&& structs_chunks(els@, count as nat) == bytes@.subrange(at as int, end as int)
            &&& forall|k: int| 0 <= k < count ==> (#[trigger] els@[k]).struct_index == si && struct_ok(*layout, els@[k])
        },
        forall|w: Seq<TagStructData>|
            #![trigger structs_chunks(w, count as nat)]
            w.len() == count && (forall|k: int|
                0 <= k < w.len() ==> (#[trigger] w[k]).struct_index == si && struct_readable(*layout, w[k]))
                && starts_with(bytes@, at as int, structs_chunks(w, count as nat)) ==> (r matches Ok((els, end)) && end == at
                + structs_chunks(w, count as nat).len() && same_structs(els@, w)),
    decreases bytes@.len() - at, 0int, 1int,
{
    let mut elements: Vec<TagStructData> = Vec::new();
    let mut cur = at;
    let mut i: u32 = 0;
    assert(structs_chunks(elements@, 0) =~= Seq::<u8>::empty());
    assert(bytes@.subrange(at as int, at as int) =~= Seq::<u8>::empty());
    while i < count
        invariant
            layout.wf(),
            inline_ranked(*layout, ranks),
            si < layout.struct_layouts@.len(),
            at <= cur <= bytes@.len(),
            elements@.len() == i,
            i <= count,
            structs_chunks(elements@, i as nat) == bytes@.subrange(at as int, cur as int),
            forall|k: int| 0 <= k < i ==> (#[trigger] elements@[k]).struct_index == si && struct_ok(*layout, elements@[k]),
            forall|w: Seq<TagStructData>|
                #![trigger structs_chunks(w, count as nat)]
                w.len() == count && (forall|k: int|
                    0 <= k < w.len() ==> (#[trigger] w[k]).struct_index == si && struct_readable(*layout, w[k]))
                    && starts_with(bytes@, at as int, structs_chunks(w, count as nat)) ==> cur == at + structs_chunks(
                    w,
                    i as nat,
                ).len() && forall|k: int| 0 <= k < i ==> same_struct(#[trigger] elements@[k], w[k]),
        decreases count - i,
    {
        let res = read_struct(layout, si, bytes, cur, Ghost(ranks));
        proof {
            assert forall|w: Seq<TagStructData>|
                #![trigger structs_chunks(w, count as nat)]
                w.len() == count && (forall|k: int|
                    0 <= k < w.len() ==> (#[trigger] w[k]).struct_index == si && struct_readable(*layout, w[k]))
                    && starts_with(bytes@, at as int, structs_chunks(w, count as nat)) implies (res matches Ok((d, next))
                    && next == at + structs_chunks(w, (i + 1) as nat).len() && same_struct(d, w[i as int])) by {
                lemma_starts_with_struct(bytes@, at as int, w, i as int, count as nat);
                assert(struct_readable(*layout, w[i as int]));
            }
        }
        let (d, next) = match res {
            Ok(x) => x,
            Err(e) => {
                return Err(e);
            },
        };
        let ghost before = elements@;
        elements.push(d);
        proof {
            lemma_structs_prefix(before, elements@, i as nat);
            assert(elements@[i as int] == d);
            assert(forall|k: int| 0 <= k < i ==> elements@[k] == before[k]);
            assert(bytes@.subrange(at as int, next as int) =~= bytes@.subrange(at as int, cur as int) + bytes@.subrange(
                cur as int,
                next as int,
            ));
        }
        cur = next;
        i = i + 1;
    }
    proof {
        assert forall|w: Seq<TagStructData>|
            #![trigger structs_chunks(w, count as nat)]
            w.len() == count && (forall|k: int|
                0 <= k < w.len() ==> (#[trigger] w[k]).struct_index == si && struct_readable(*layout, w[k]))
                && starts_with(bytes@, at as int, structs_chunks(w, count as nat)) implies same_structs(elements@, w) by {
        }
    }
    Ok((elements, cur))
}

/// A `tgbl` chunk of block `bi` at `pos`: element count, flags, the
/// elements' bytes (the block struct's size each), then one `tgst` per
/// element unless flags bit 0 marks the block simple; it must end where
/// its size says.
#[verifier::rlimit(100)]
#[verifier::spinoff_prover]
fn read_block(layout: &TagLayout, bi: u32, bytes: &[u8], pos: usize, Ghost(ranks): Ghost<Seq<nat>>) -> (r: Result<
    (TagBlockData, usize),
    TagReadError,
>)
    requires
        layout.wf(),
        inline_ranked(*layout, ranks),
        bi < layout.block_layouts@.len(),
        pos <= bytes@.len(),
    ensures
        r matches Ok((b, end)) ==> {
            &&& pos <= end <= bytes@.len()
            &&& b.block_index == bi
            &&& block_chunk(b) == bytes@.subrange(pos as int, end as int)
            &&& block_ok(*layout, b)
        },
        forall|w: TagBlockData|
            #![trigger block_readable(*layout, w, bi)]
            block_readable(*layout, w, bi) && starts_with(bytes@, pos as int, block_chunk(w)) ==> (r matches Ok((b, end))
                && end == pos + block_chunk(w).len() && same_block(b, w)),
    decreases bytes@.len() - pos, 0int, 0int,
{
    let res = read_chunk_header(bytes, pos);
    proof {
        assert forall|w: TagBlockData|
            #![trigger block_readable(*layout, w, bi)]
            block_readable(*layout, w, bi) && starts_with(bytes@, pos as int, block_chunk(w)) implies {
            &&& res == Ok::<(u32, u32, u32), TagReadError>((TGBL, 0, block_content(w).len() as u32))
            &&& starts_with(bytes@, pos + 12, block_content(w))
        } by {
            let c = block_content(w);
            lemma_starts_with_split(bytes@, pos as int, chunk_header_bytes(TGBL, 0, c.len() as u32), c);
        }
    }
    let (sig, ver, size) = match res {
        Ok(x) => x,
        Err(e) => {
            return Err(e);
        },
    };
    if sig != TGBL {
        return Err(TagReadError::BadChunkSignature { offset: pos as u64, expected: u32_to_be(TGBL), got: u32_to_be(sig) });
    }
    if ver != 0 {
        return Err(TagReadError::BadChunkVersion { offset: pos as u64, version: ver });
    }
    let start = pos + 12;
    if size as usize > bytes.len() - start {
        return Err(TagReadError::Truncated { need: size as usize, have: bytes.len() - start });
    }
    let end = start + size as usize;
    if bytes.len() - start < 8 {
        return Err(TagReadError::Truncated { need: 8, have: bytes.len() - start });
    }
    let count = read_u32_le(bytes, start);
    let flags = read_u32_le(bytes, start + 4);
    proof {
        lemma_le_u32_bytes(bytes@, start as int);
        lemma_le_u32_bytes(bytes@, start + 4);
        assert forall|w: TagBlockData|
            #![trigger block_readable(*layout, w, bi)]
            block_readable(*layout, w, bi) && starts_with(bytes@, pos as int, block_chunk(w)) implies {
            &&& count == w.elements@.len()
            &&& flags == w.flags
            &&& w.raw_data@.len() == w.raw_data.len()
            &&& starts_with(bytes@, start + 8, w.raw_data@)
        } by {
            lemma_block_parts(bytes@, start as int, w);
        }
    }
    let si = layout.block_layouts[bi as usize].struct_index;
    let es = layout.struct_layouts[si as usize].size;
    let raw_start = start + 8;
    let total = match es.checked_mul(count as usize) {
        Some(x) => x,
        None => {
            proof {
                assert forall|w: TagBlockData|
                    #![trigger block_readable(*layout, w, bi)]
                    block_readable(*layout, w, bi) implies !starts_with(bytes@, pos as int, block_chunk(w)) by {
                    if starts_with(bytes@, pos as int, block_chunk(w)) {
                        assert(w.raw_data@.len() == w.raw_data.len());
                        assert(w.raw_data@.len() == es * count) by (nonlinear_arith)
                            requires
                                w.raw_data@.len() == w.elements@.len() * es,
                                count == w.elements@.len(),
                        ;
                    }
                }
            }
            return Err(TagReadError::Truncated { need: usize::MAX, have: bytes.len() - raw_start });
        },
    };
    if total > bytes.len() - raw_start {
        proof {
            assert forall|w: TagBlockData|
                #![trigger block_readable(*layout, w, bi)]
                block_readable(*layout, w, bi) implies !starts_with(bytes@, pos as int, block_chunk(w)) by {
                if starts_with(bytes@, pos as int, block_chunk(w)) {
                    lemma_block_parts(bytes@, start as int, w);
                    assert(w.raw_data@.len() == es * count) by (nonlinear_arith)
                        requires
                            w.raw_data@.len() == w.elements@.len() * es,
                            count == w.elements@.len(),
                    ;
                }
            }
        }
        return Err(TagReadError::Truncated { need: total, have: bytes.len() - raw_start });
    }
    let raw_end = raw_start + total;
    let raw_data = vstd::slice::slice_to_vec(vstd::slice::slice_subrange(bytes, raw_start, raw_end));
    let mut elements: Vec<TagStructData> = Vec::new();
    let mut cur = raw_end;
    if flags & 1 == 0 {
        let sres = read_block_structs(layout, si, count, bytes, raw_end, Ghost(ranks));
        proof {
            assert forall|w: TagBlockData|
                #![trigger block_readable(*layout, w, bi)]
                block_readable(*layout, w, bi) && starts_with(bytes@, pos as int, block_chunk(w)) implies (sres matches Ok(
                    (els, e2),
                ) && e2 == end && same_structs(els@, w.elements@)) by {
                lemma_block_parts(bytes@, start as int, w);
                assert(w.raw_data@.len() == es * count) by (nonlinear_arith)
                    requires
                        w.raw_data@.len() == w.elements@.len() * es,
                        count == w.elements@.len(),
                ;
                assert(structs_chunks(w.elements@, count as nat) == structs_chunks(w.elements@, w.elements@.len()));
                assert(block_content(w).len() == 8 + w.raw_data@.len() + structs_chunks(w.elements@, w.elements@.len()).len());
            }
        }
        let (els, next) = match sres {
            Ok(x) => x,
            Err(e) => {
                return Err(e);
            },
        };
        elements = els;
        cur = next;
    } else {
        let mut i: u32 = 0;
        while i < count
            invariant
                elements@.len() == i,
                i <= count,
                si < layout.struct_layouts@.len(),
                forall|k: int|
                    0 <= k < i ==> (#[trigger] elements@[k]).struct_index == si && elements@[k].sub_chunks@.len() == 0,
            decreases count - i,
        {
            elements.push(TagStructData { struct_index: si, sub_chunks: Vec::new() });
            i = i + 1;
        }
        proof {
            assert forall|k: int| 0 <= k < count implies struct_ok(*layout, #[trigger] elements@[k]) by {}
        }
        proof {
            assert forall|w: TagBlockData|
                #![trigger block_readable(*layout, w, bi)]
                block_readable(*layout, w, bi) && starts_with(bytes@, pos as int, block_chunk(w)) implies cur == end by {
                lemma_block_parts(bytes@, start as int, w);
                assert(w.raw_data@.len() == es * count) by (nonlinear_arith)
                    requires
                        w.raw_data@.len() == w.elements@.len() * es,
                        count == w.elements@.len(),
                ;
            }
        }
    }
    if cur != end {
        return Err(TagReadError::ChunkSizeMismatch { ended_at: cur as u64, expected_end: end as u64 });
    }
    let b = TagBlockData {
        block_index: bi,
        flags,
        raw_data,
        endian: Endian::Le,
        elements,
        classic_block_header: None,
    };
    proof {
        assert(b.elements@.len() == count);
        assert(b.raw_data@.len() == b.elements@.len() * es) by (nonlinear_arith)
            requires
                b.raw_data@.len() == es * count,
                b.elements@.len() == count,
        ;
        assert(block_ok(*layout, b));
        assert forall|w: TagBlockData|
            #![trigger block_readable(*layout, w, bi)]
            block_readable(*layout, w, bi) && starts_with(bytes@, pos as int, block_chunk(w)) implies same_block(b, w) by {
            assert(w.raw_data@.len() == es * count) by (nonlinear_arith)
                requires
                    w.raw_data@.len() == w.elements@.len() * es,
                    count == w.elements@.len(),
            ;
            assert(b.raw_data@ =~= w.raw_data@);
            if flags & 1 != 0 {
                assert forall|k: int| 0 <= k < b.elements@.len() implies same_struct(
                    #[trigger] b.elements@[k],
                    w.elements@[k],
                ) by {}
            }
        }
        let tail = if flags & 1 == 0 {
            structs_chunks(b.elements@, b.elements@.len())
        } else {
            Seq::empty()
        };
        assert(bytes@.subrange(start as int, end as int) =~= bytes@.subrange(start as int, start + 4) + bytes@.subrange(
            start + 4,
            start + 8,
        ) + bytes@.subrange(raw_start as int, raw_end as int) + bytes@.subrange(raw_end as int, end as int));
        assert(bytes@.subrange(raw_end as int, end as int) =~= tail);
        assert(block_chunk(b) =~= bytes@.subrange(pos as int, end as int)) by {
            assert(bytes@.subrange(pos as int, end as int) =~= bytes@.subrange(pos as int, start as int)
                + bytes@.subrange(start as int, end as int));
        }
    }
    Ok((b, end))
}

/// A pageable resource chunk at `pos`: `tg\0c` (null, empty), `tgrc`
/// (a `tgdt` payload, then the resource struct's `tgst`) or `tgxc` (an
/// XSync payload); the chunk must end where its size says.
#[verifier::rlimit(40)]
fn read_resource(layout: &TagLayout, ri: u32, bytes: &[u8], pos: usize, Ghost(ranks): Ghost<Seq<nat>>) -> (r: Result<
    (TagResourceChunk, usize),
    TagReadError,
>)
    requires
        layout.wf(),
        inline_ranked(*layout, ranks),
        ri < layout.resource_layouts@.len(),
        pos <= bytes@.len(),
    ensures
        r matches Ok((res, end)) ==> {
            &&& pos <= end <= bytes@.len()
            &&& resource_chunk(res) == bytes@.subrange(pos as int, end as int)
            &&& res matches TagResourceChunk::Exploded { struct_data, .. } ==> {
                &&& struct_data.struct_index == layout.resource_layouts@[ri as int].struct_index
                &&& struct_ok(*layout, struct_data)
            }
        },
        forall|w: TagResourceChunk|
            #![trigger resource_readable(*layout, w, ri)]
            resource_readable(*layout, w, ri) && starts_with(bytes@, pos as int, resource_chunk(w)) ==> (r matches Ok(
                (got, end),
            ) && end == pos + resource_chunk(w).len() && same_content(
                TagSubChunkContent::Resource(got),
                TagSubChunkContent::Resource(w),
            )),
    decreases bytes@.len() - pos, 0int, 0int,
{
    let hres = read_chunk_header(bytes, pos);
    proof {
        assert forall|w: TagResourceChunk|
            #![trigger resource_readable(*layout, w, ri)]
            resource_readable(*layout, w, ri) && starts_with(bytes@, pos as int, resource_chunk(w)) implies match w {
                TagResourceChunk::Null => hres == Ok::<(u32, u32, u32), TagReadError>((TG_NULL, 0, 0)),
                TagResourceChunk::Exploded { exploded, struct_data } => {
                    let c = chunk_bytes(TGDT, 0, exploded@) + struct_chunk(struct_data);
                    &&& hres == Ok::<(u32, u32, u32), TagReadError>((TGRC, 0, c.len() as u32))
                    &&& starts_with(bytes@, pos + 12, chunk_bytes(TGDT, 0, exploded@))
                    &&& starts_with(bytes@, pos + 12 + chunk_bytes(TGDT, 0, exploded@).len(), struct_chunk(struct_data))
                },
                TagResourceChunk::Xsync(p) => {
                    &&& hres == Ok::<(u32, u32, u32), TagReadError>((TGXC, 0, p@.len() as u32))
                    &&& pos + 12 + p@.len() <= bytes@.len()
                },
            } by {
            match w {
                TagResourceChunk::Null => {
                    assert(resource_chunk(w) =~= chunk_header_bytes(TG_NULL, 0, 0) + Seq::<u8>::empty());
                    lemma_starts_with_split(bytes@, pos as int, chunk_header_bytes(TG_NULL, 0, 0), Seq::<u8>::empty());
                },
                TagResourceChunk::Exploded { exploded, struct_data } => {
                    let a = chunk_bytes(TGDT, 0, exploded@);
                    let b = struct_chunk(struct_data);
                    lemma_starts_with_split(bytes@, pos as int, chunk_header_bytes(TGRC, 0, (a + b).len() as u32), a + b);
                    lemma_starts_with_split(bytes@, pos + 12, a, b);
                },
                TagResourceChunk::Xsync(p) => {
                    lemma_starts_with_split(bytes@, pos as int, chunk_header_bytes(TGXC, 0, p@.len() as u32), p@);
                },
            }
        }
    }
    let (sig, ver, size) = match hres {
        Ok(x) => x,
        Err(e) => {
            return Err(e);
        },
    };
    let cstart = pos + 12;
    if sig == TG_NULL {
        if ver != 0 {
            return Err(TagReadError::BadChunkVersion { offset: pos as u64, version: ver });
        }
        if size != 0 {
            return Err(
                TagReadError::ChunkSizeMismatch { ended_at: cstart as u64, expected_end: (cstart as u64).wrapping_add(size as u64) },
            );
        }
        return Ok((TagResourceChunk::Null, cstart));
    }
    if sig == TGRC {
        if ver != 0 {
            return Err(TagReadError::BadChunkVersion { offset: pos as u64, version: ver });
        }
        let lres = read_leaf_chunk(bytes, cstart, TGDT);
        proof {
            assert forall|w: TagResourceChunk|
                #![trigger resource_readable(*layout, w, ri)]
                resource_readable(*layout, w, ri) && starts_with(bytes@, pos as int, resource_chunk(w)) implies (w is Exploded
                    && (lres matches Ok((c, after)) && after == cstart + chunk_bytes(TGDT, 0, w->exploded@).len() && c@
                    == w->exploded@)) by {
                if let TagResourceChunk::Exploded { exploded, struct_data } = w {
                    assert(exploded@.len() <= u32::MAX);
                }
            }
        }
        let (exploded, after) = match lres {
            Ok(x) => x,
            Err(e) => {
                return Err(e);
            },
        };
        let rsi = layout.resource_layouts[ri as usize].struct_index;
        let sres = read_struct(layout, rsi, bytes, after, Ghost(ranks));
        proof {
            assert forall|w: TagResourceChunk|
                #![trigger resource_readable(*layout, w, ri)]
                resource_readable(*layout, w, ri) && starts_with(bytes@, pos as int, resource_chunk(w)) implies (sres matches Ok(
                    (d, end),
                ) && end == after + struct_chunk(w->struct_data).len() && same_struct(d, w->struct_data)) by {
                if let TagResourceChunk::Exploded { exploded, struct_data } = w {
                    assert(struct_readable(*layout, struct_data));
                }
            }
        }
        let (struct_data, end) = match sres {
            Ok(x) => x,
            Err(e) => {
                return Err(e);
            },
        };
        if end - cstart != size as usize {
            return Err(
                TagReadError::ChunkSizeMismatch { ended_at: end as u64, expected_end: (cstart as u64).wrapping_add(size as u64) },
            );
        }
        proof {
            assert(bytes@.subrange(pos as int, end as int) =~= bytes@.subrange(pos as int, cstart as int)
                + (bytes@.subrange(cstart as int, after as int) + bytes@.subrange(after as int, end as int)));
        }
        return Ok((TagResourceChunk::Exploded { exploded, struct_data }, end));
    }
    if sig == TGXC {
        if ver != 0 {
            return Err(TagReadError::BadChunkVersion { offset: pos as u64, version: ver });
        }
        let (p, end) = read_content(bytes, pos, size)?;
        assert(bytes@.subrange(pos as int, end as int) =~= bytes@.subrange(pos as int, cstart as int) + p@);
        proof {
            assert forall|w: TagResourceChunk|
                #![trigger resource_readable(*layout, w, ri)]
                resource_readable(*layout, w, ri) && starts_with(bytes@, pos as int, resource_chunk(w)) implies p@
                    == w->Xsync_0@ by {
                if let TagResourceChunk::Xsync(q) = w {
                    lemma_starts_with_split(bytes@, pos as int, chunk_header_bytes(TGXC, 0, q@.len() as u32), q@);
                    assert(p@ =~= q@);
                }
            }
        }
        return Ok((TagResourceChunk::Xsync(p), end));
    }
    Err(TagReadError::UnknownResourceSignature { offset: pos as u64, got: u32_to_be(sig) })
}

impl TagStructData {
    /// Read a `tgst` chunk of struct `struct_index` at `pos` (see
    /// [`read_struct`]); the struct and the position after its chunk.
    /// What is read writes back as the same bytes (the chunk is
    /// [`struct_chunk`] of the result) and agrees with the layout (see
    /// [`struct_ok`]): every sub-chunk is owned by the field of its struct
    /// that it was read for, and its payload is of that field's kind.
    /// The chunk of any struct that reads back (see [`struct_readable`])
    /// is always read whole, and what comes back is that struct, sub-chunk
    /// by sub-chunk: owned by the same fields, with the same payloads.
    pub fn read(layout: &TagLayout, struct_index: u32, bytes: &[u8], pos: usize) -> (r: Result<
        (TagStructData, usize),
        TagReadError,
    >)
        requires
            classic_layout(*layout),
            struct_index < layout.struct_layouts@.len(),
            pos <= bytes@.len(),
        ensures
            r matches Ok((d, end)) ==> {
                &&& pos <= end <= bytes@.len()
                &&& d.struct_index == struct_index
                &&& struct_chunk(d) == bytes@.subrange(pos as int, end as int)
                &&& struct_ok(*layout, d)
            },
            forall|w: TagStructData|
                #![trigger struct_readable(*layout, w)]
                w.struct_index == struct_index && struct_readable(*layout, w) && starts_with(
                    bytes@,
                    pos as int,
                    struct_chunk(w),
                ) ==> (r matches Ok((d, end)) && end == pos + struct_chunk(w).len() && same_struct(d, w)),
    {
        let ghost ranks = choose|ranks: Seq<nat>| inline_ranked(*layout, ranks);
        read_struct(layout, struct_index, bytes, pos, Ghost(ranks))
    }
}

impl TagBlockData {
    /// Read a `tgbl` chunk of block `block_index` at `pos` (see
    /// [`read_block`]); the block and the position after its chunk. What
    /// is read writes back as the same bytes (the chunk is
    /// [`block_chunk`] of the result) and agrees with the layout. The
    /// chunk of any block that reads back (see [`block_readable`]) is
    /// always read whole, and what comes back is that block: the same
    /// flags and bytes, and the same elements sub-chunk by sub-chunk.
    pub fn read(layout: &TagLayout, block_index: u32, bytes: &[u8], pos: usize) -> (r: Result<
        (TagBlockData, usize),
        TagReadError,
    >)
        requires
            classic_layout(*layout),
            block_index < layout.block_layouts@.len(),
            pos <= bytes@.len(),
        ensures
            r matches Ok((b, end)) ==> {
                &&& pos <= end <= bytes@.len()
                &&& b.block_index == block_index
                &&& block_chunk(b) == bytes@.subrange(pos as int, end as int)
                &&& block_ok(*layout, b)
            },
            forall|w: TagBlockData|
                #![trigger block_readable(*layout, w, block_index)]
                block_readable(*layout, w, block_index) && starts_with(bytes@, pos as int, block_chunk(w)) ==> (r matches Ok(
                    (b, end),
                ) && end == pos + block_chunk(w).len() && same_block(b, w)),
    {
        let ghost ranks = choose|ranks: Seq<nat>| inline_ranked(*layout, ranks);
        read_block(layout, block_index, bytes, pos, Ghost(ranks))
    }
}

} // verus!
