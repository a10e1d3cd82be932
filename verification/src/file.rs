//! Tag file: the 64-byte [`TagFileHeader`], the mandatory `tag!` stream,
//! and up to three optional streams (`want` dependency list, `info`
//! import information, `assd` asset depot storage).
use vstd::prelude::*;

use crate::api::{TagGroup, TagStruct};
use crate::bytes::{le_u32, push_u32_le, read_u32_le, u32_be_bytes, u32_le_bytes, u32_to_be, Endian};
use crate::data::{
    block_element_size, block_ok, block_struct, default_struct_of, lemma_record_bounds, record, zeros, TagBlockData,
    TagStructData,
};
use crate::editing::TagStructMut;
use crate::layout::TagLayout;

verus! {

/// The packed `BLAM` signature.
pub const BLAM_SIGNATURE: u32 = 0x424C_414D;

/// Why bytes could not be read as a tag file.
#[derive(Debug)]
pub enum TagReadError {
    /// The input ended before `need` bytes were available.
    Truncated { need: usize, have: usize },
    /// A chunk or file signature other than the expected one.
    BadChunkSignature { offset: u64, expected: [u8; 4], got: [u8; 4] },
    /// A chunk whose version word is not the one its kind carries.
    BadChunkVersion { offset: u64, version: u32 },
    /// A chunk whose contents did not end where its size says.
    ChunkSizeMismatch { ended_at: u64, expected_end: u64 },
    /// A field whose type needs a sub-chunk this reader does not know.
    UnhandledSubChunkField { field_index: u32 },
    /// A pageable resource chunk of an unknown kind.
    UnknownResourceSignature { offset: u64, got: [u8; 4] },
}

/// The fixed 64-byte preamble of every tag file:
/// `pad[36] + build_version + build_number + version + group_tag +
/// group_version + checksum + signature`, little-endian words.
#[derive(Debug)]
pub struct TagFileHeader {
    /// 36 bytes kept verbatim.
    pub pad: [u8; 36],
    /// Authoring-toolset build version.
    pub build_version: i32,
    /// Authoring-toolset build number.
    pub build_number: i32,
    /// Tag-file format version.
    pub version: u32,
    /// Big-endian packed group tag (e.g. `scnr`).
    pub group_tag: u32,
    pub group_version: u32,
    pub checksum: u32,
    /// Always the packed `BLAM`.
    pub signature: u32,
}

/// The 64 header bytes of `h`.
pub open spec fn header_bytes(h: TagFileHeader) -> Seq<u8> {
    h.pad@ + u32_le_bytes(h.build_version as u32) + u32_le_bytes(h.build_number as u32) + u32_le_bytes(h.version)
        + u32_le_bytes(h.group_tag) + u32_le_bytes(h.group_version) + u32_le_bytes(h.checksum) + u32_le_bytes(
        h.signature,
    )
}

/// `h` is the header stored in the first 64 bytes of `b`.
pub open spec fn header_from(b: Seq<u8>, h: TagFileHeader) -> bool {
    &&& h.pad@ == b.subrange(0, 36)
    &&& h.build_version == le_u32(b, 36) as i32
    &&& h.build_number == le_u32(b, 40) as i32
    &&& h.version == le_u32(b, 44)
    &&& h.group_tag == le_u32(b, 48)
    &&& h.group_version == le_u32(b, 52)
    &&& h.checksum == le_u32(b, 56)
    &&& h.signature == le_u32(b, 60)
}

impl TagFileHeader {
    /// Read the header from the start of `bytes`. Fails with `Truncated`
    /// on fewer than 64 bytes and with `BadChunkSignature` when the
    /// signature word is not `BLAM`.
    pub fn read(bytes: &[u8]) -> (r: Result<Self, TagReadError>)
        ensures
            bytes@.len() < 64 ==> r == Err::<Self, TagReadError>(TagReadError::Truncated { need: 64, have: bytes@.len() as usize }),
            bytes@.len() >= 64 && le_u32(bytes@, 60) != BLAM_SIGNATURE ==> (r matches Err(e) && e == (TagReadError::BadChunkSignature {
                offset: 60,
                expected: [0x42u8, 0x4Cu8, 0x41u8, 0x4Du8],
                got: e->BadChunkSignature_got,
            }) && e->BadChunkSignature_got@ == u32_be_bytes(le_u32(bytes@, 60))),
            bytes@.len() >= 64 && le_u32(bytes@, 60) == BLAM_SIGNATURE <==> r is Ok,
            r matches Ok(h) ==> header_from(bytes@, h),
    {
        if bytes.len() < 64 {
            return Err(TagReadError::Truncated { need: 64, have: bytes.len() });
        }
        let mut pad = [0u8; 36];
        let mut i: usize = 0;
        while i < 36
            invariant
                i <= 36,
                bytes@.len() >= 64,
                forall|k: int| 0 <= k < i ==> #[trigger] pad@[k] == bytes@[k],
            decreases 36 - i,
        {
            pad[i] = bytes[i];
            i = i + 1;
        }
        assert(pad@ =~= bytes@.subrange(0, 36));
        let signature = read_u32_le(bytes, 60);
        if signature != BLAM_SIGNATURE {
            return Err(
                TagReadError::BadChunkSignature {
                    offset: 60,
                    expected: [0x42u8, 0x4Cu8, 0x41u8, 0x4Du8],
                    got: u32_to_be(signature),
                },
            );
        }
        Ok(
            TagFileHeader {
                pad,
                build_version: read_u32_le(bytes, 36) as i32,
                build_number: read_u32_le(bytes, 40) as i32,
                version: read_u32_le(bytes, 44),
                group_tag: read_u32_le(bytes, 48),
                group_version: read_u32_le(bytes, 52),
                checksum: read_u32_le(bytes, 56),
                signature,
            },
        )
    }

    /// Append the 64 header bytes.
    pub fn write(&self, out: &mut Vec<u8>)
        ensures
            final(out)@ == old(out)@ + header_bytes(*self),
    {
        out.extend_from_slice(self.pad.as_slice());
        assert(out@ =~= old(out)@ + self.pad@);
        push_u32_le(out, self.build_version as u32);
        push_u32_le(out, self.build_number as u32);
        push_u32_le(out, self.version);
        push_u32_le(out, self.group_tag);
        push_u32_le(out, self.group_version);
        push_u32_le(out, self.checksum);
        push_u32_le(out, self.signature);
        assert(out@ =~= old(out)@ + header_bytes(*self));
    }
}

proof fn lemma_le_u32_at(b: Seq<u8>, at: int, v: u32)
    requires
        0 <= at,
        at + 4 <= b.len(),
        b.subrange(at, at + 4) == u32_le_bytes(v),
    ensures
        le_u32(b, at) == v,
{
    crate::bytes::lemma_le_u32_roundtrip(v);
    let w = u32_le_bytes(v);
    assert(b[at] == w[0] && b[at + 1] == w[1] && b[at + 2] == w[2] && b[at + 3] == w[3]) by {
        assert(b.subrange(at, at + 4)[0] == b[at]);
        assert(b.subrange(at, at + 4)[1] == b[at + 1]);
        assert(b.subrange(at, at + 4)[2] == b[at + 2]);
        assert(b.subrange(at, at + 4)[3] == b[at + 3]);
    }
}

/// Reading back the bytes of a header gives the header.
#[verifier::rlimit(40)]
pub proof fn lemma_header_roundtrip(h: TagFileHeader)
    ensures
        header_bytes(h).len() == 64,
        header_from(header_bytes(h), h),
{
    let b = header_bytes(h);
    assert(b.subrange(0, 36) =~= h.pad@);
    assert(b.subrange(36, 40) =~= u32_le_bytes(h.build_version as u32));
    assert(b.subrange(40, 44) =~= u32_le_bytes(h.build_number as u32));
    assert(b.subrange(44, 48) =~= u32_le_bytes(h.version));
    assert(b.subrange(48, 52) =~= u32_le_bytes(h.group_tag));
    assert(b.subrange(52, 56) =~= u32_le_bytes(h.group_version));
    assert(b.subrange(56, 60) =~= u32_le_bytes(h.checksum));
    assert(b.subrange(60, 64) =~= u32_le_bytes(h.signature));
    lemma_le_u32_at(b, 36, h.build_version as u32);
    lemma_le_u32_at(b, 40, h.build_number as u32);
    lemma_le_u32_at(b, 44, h.version);
    lemma_le_u32_at(b, 48, h.group_tag);
    lemma_le_u32_at(b, 52, h.group_version);
    lemma_le_u32_at(b, 56, h.checksum);
    lemma_le_u32_at(b, 60, h.signature);
    lemma_i32_roundtrip(h.build_version);
    lemma_i32_roundtrip(h.build_number);
}

proof fn lemma_i32_roundtrip(x: i32)
    ensures
        (x as u32) as i32 == x,
{
    assert((x as u32) as i32 == x) by (bit_vector);
}

//================================================================================
// Streams
//================================================================================

/// One stream: its layout and the root block of its data.
#[derive(Debug)]
pub struct TagStream {
    pub layout: TagLayout,
    pub data: TagBlockData,
}

/// `s` is a fresh stream of `layout`: its root block (the tag-group
/// block) holds one zero-filled element whose sub-chunks are the
/// struct's defaults.
pub open spec fn is_default_stream(layout: TagLayout, s: TagStream) -> bool {
    &&& s.layout == layout
    &&& s.data.block_index == layout.header.tag_group_block_index
    &&& s.data.flags == 0
    &&& s.data.elements@.len() == 1
    &&& s.data.raw_data@ == zeros(block_element_size(layout, layout.header.tag_group_block_index as int) as nat)
    &&& default_struct_of(
        layout,
        block_struct(layout, layout.header.tag_group_block_index as int),
        layout.struct_layouts@.len() as nat,
        s.data.elements@[0],
    )
}

impl TagStream {
    /// The layout is well formed and the data conforms to it.
    pub open spec fn wf(&self) -> bool {
        self.layout.wf() && block_ok(self.layout, self.data)
    }

    /// A stream whose root block holds one zero-filled default element
    /// of the layout's tag-group struct.
    pub fn new_default(layout: TagLayout) -> (r: Self)
        requires
            layout.wf(),
        ensures
            r.wf(),
            is_default_stream(layout, r),
    {
        let block_index = layout.header.tag_group_block_index;
        let struct_index = layout.block_layouts[block_index as usize].struct_index as usize;
        let size = layout.struct_layouts[struct_index].size;
        let element = TagStructData::new_default(&layout, struct_index, layout.struct_layouts.len() as u32);
        let mut raw_data: Vec<u8> = Vec::new();
        let mut i: usize = 0;
        while i < size
            invariant
                i <= size,
                raw_data@ == zeros(i as nat),
            decreases size - i,
        {
            raw_data.push(0);
            i = i + 1;
            assert(raw_data@ =~= zeros(i as nat));
        }
        let mut elements: Vec<TagStructData> = Vec::new();
        elements.push(element);
        let data = TagBlockData {
            block_index,
            flags: 0,
            raw_data,
            endian: Endian::Le,
            elements,
            classic_block_header: None,
        };
        assert(data.raw_data@.len() == 1 * size);
        TagStream { layout, data }
    }

    /// Read handle on the root element, or `None` when the root block is
    /// empty.
    pub fn root(&self) -> (r: Option<TagStruct<'_>>)
        requires
            self.wf(),
        ensures
            r is Some <==> self.data.elements@.len() > 0,
            r matches Some(st) ==> st.spec_layout() == self.layout && st.spec_data() == self.data.elements@[0]
                && st.spec_raw() == record(
                self.data.raw_data@,
                block_element_size(self.layout, self.data.block_index as int),
                0,
            ),
    {
        if self.data.elements.len() == 0 {
            return None;
        }
        let raw = self.data.element_raw(&self.layout, 0);
        proof {
            let size = block_element_size(self.layout, self.data.block_index as int);
            lemma_record_bounds(size, 0, self.data.elements@.len() as int);
            assert(self.data.elements@[0].struct_index == block_struct(self.layout, self.data.block_index as int));
        }
        Some(TagStruct::new(&self.layout, &self.data.elements[0], raw))
    }

    /// Mutable handle on the root element, or `None` when the root block
    /// is empty.
    pub fn root_mut(&mut self) -> (r: Option<TagStructMut<'_>>)
        requires
            old(self).wf(),
        ensures
            r is Some <==> old(self).data.elements@.len() > 0,
            r matches Some(m) ==> {
                &&& m.inv()
                &&& *m.layout == old(self).layout
                &&& *m.struct_data == old(self).data.elements@[0]
                &&& *m.block_raw == old(self).data.raw_data
                &&& m.raw_start == 0
                &&& final(self).data.elements@ == old(self).data.elements@.update(0, *final(m.struct_data))
                &&& final(self).data.raw_data == *final(m.block_raw)
            },
            r is None ==> final(self).data.elements@ == old(self).data.elements@ && final(self).data.raw_data
                == old(self).data.raw_data,
            final(self).layout == old(self).layout,
            final(self).data.block_index == old(self).data.block_index,
            final(self).data.flags == old(self).data.flags,
    {
        if self.data.elements.len() == 0 {
            return None;
        }
        proof {
            let size = block_element_size(self.layout, self.data.block_index as int);
            lemma_record_bounds(size, 0, self.data.elements@.len() as int);
            assert(self.data.elements@[0].struct_index == block_struct(self.layout, self.data.block_index as int));
        }
        let layout = &self.layout;
        let data = &mut self.data;
        let struct_data = &mut data.elements[0];
        let block_raw = &mut data.raw_data;
        Some(TagStructMut { layout, struct_data, block_raw, raw_start: 0 })
    }
}

//================================================================================
// Tag files
//================================================================================

/// A tag file: header, the `tag!` stream, and the optional `want`,
/// `info` and `assd` streams.
#[derive(Debug)]
pub struct TagFile {
    pub header: TagFileHeader,
    /// The `tag!` stream.
    pub tag_stream: TagStream,
    /// The optional `want` (dependency list) stream.
    pub dependency_list_stream: Option<TagStream>,
    /// The optional `info` (import information) stream.
    pub import_info_stream: Option<TagStream>,
    /// The optional `assd` (asset depot storage) stream.
    pub asset_depot_storage_stream: Option<TagStream>,
}

/// An optional stream is absent or well formed.
pub open spec fn opt_stream_wf(s: Option<TagStream>) -> bool {
    match s {
        Some(st) => st.wf(),
        None => true,
    }
}

impl TagFile {
    /// Every stream is well formed.
    pub open spec fn wf(&self) -> bool {
        &&& self.tag_stream.wf()
        &&& opt_stream_wf(self.dependency_list_stream)
        &&& opt_stream_wf(self.import_info_stream)
        &&& opt_stream_wf(self.asset_depot_storage_stream)
    }

    /// A fresh tag of the layout's group: a `BLAM` header carrying the
    /// group tag and version (everything else zero) and a `tag!` stream
    /// holding one default root element; no optional streams.
    pub fn new(layout: TagLayout, group_tag: u32, group_version: u32) -> (r: Self)
        requires
            layout.wf(),
        ensures
            r.wf(),
            r.header.pad@ == Seq::new(36, |i: int| 0u8),
            r.header.build_version == 0,
            r.header.build_number == 0,
            r.header.version == 0,
            r.header.group_tag == group_tag,
            r.header.group_version == group_version,
            r.header.checksum == 0,
            r.header.signature == BLAM_SIGNATURE,
            r.tag_stream.layout == layout,
            r.tag_stream.data.elements@.len() == 1,
            r.dependency_list_stream is None,
            r.import_info_stream is None,
            r.asset_depot_storage_stream is None,
    {
        let header = TagFileHeader {
            pad: [0u8; 36],
            build_version: 0,
            build_number: 0,
            version: 0,
            group_tag,
            group_version,
            checksum: 0,
            signature: BLAM_SIGNATURE,
        };
        assert(header.pad@ =~= Seq::new(36, |i: int| 0u8));
        TagFile {
            header,
            tag_stream: TagStream::new_default(layout),
            dependency_list_stream: None,
            import_info_stream: None,
            asset_depot_storage_stream: None,
        }
    }

    /// Group tag and group version.
    pub fn group(&self) -> (r: TagGroup)
        ensures
            r.tag == self.header.group_tag,
            r.version == self.header.group_version,
    {
        TagGroup { tag: self.header.group_tag, version: self.header.group_version }
    }

    /// The tag's root element: the first element of the `tag!` stream's
    /// root block.
    pub fn root(&self) -> (r: TagStruct<'_>)
        requires
            self.wf(),
            self.tag_stream.data.elements@.len() > 0,
        ensures
            r.spec_layout() == self.tag_stream.layout,
            r.spec_data() == self.tag_stream.data.elements@[0],
            r.spec_raw() == record(
                self.tag_stream.data.raw_data@,
                block_element_size(self.tag_stream.layout, self.tag_stream.data.block_index as int),
                0,
            ),
    {
        let stream = &self.tag_stream;
        let raw = stream.data.element_raw(&stream.layout, 0);
        proof {
            let size = block_element_size(stream.layout, stream.data.block_index as int);
            lemma_record_bounds(size, 0, stream.data.elements@.len() as int);
            assert(stream.data.elements@[0].struct_index == block_struct(stream.layout, stream.data.block_index as int));
        }
        TagStruct::new(&stream.layout, &stream.data.elements[0], raw)
    }

    /// Mutable handle on the root element.
    pub fn root_mut(&mut self) -> (r: TagStructMut<'_>)
        requires
            old(self).wf(),
            old(self).tag_stream.data.elements@.len() > 0,
        ensures
            r.inv(),
            *r.layout == old(self).tag_stream.layout,
            *r.struct_data == old(self).tag_stream.data.elements@[0],
            *r.block_raw == old(self).tag_stream.data.raw_data,
            r.raw_start == 0,
            final(self).tag_stream.data.elements@ == old(self).tag_stream.data.elements@.update(0, *final(r.struct_data)),
            final(self).tag_stream.data.raw_data == *final(r.block_raw),
            final(self).tag_stream.layout == old(self).tag_stream.layout,
            final(self).tag_stream.data.block_index == old(self).tag_stream.data.block_index,
            final(self).header == old(self).header,
            final(self).dependency_list_stream == old(self).dependency_list_stream,
            final(self).import_info_stream == old(self).import_info_stream,
            final(self).asset_depot_storage_stream == old(self).asset_depot_storage_stream,
    {
        let stream = &mut self.tag_stream;
        proof {
            let size = block_element_size(stream.layout, stream.data.block_index as int);
            lemma_record_bounds(size, 0, stream.data.elements@.len() as int);
            assert(stream.data.elements@[0].struct_index == block_struct(stream.layout, stream.data.block_index as int));
        }
        let layout = &stream.layout;
        let data = &mut stream.data;
        let struct_data = &mut data.elements[0];
        let block_raw = &mut data.raw_data;
        TagStructMut { layout, struct_data, block_raw, raw_start: 0 }
    }

    /// Root element of the `want` stream, if the tag has one.
    pub fn dependency_list(&self) -> (r: Option<TagStruct<'_>>)
        requires
            self.wf(),
        ensures
            r is Some <==> (self.dependency_list_stream matches Some(s) && s.data.elements@.len() > 0),
            r matches Some(st) ==> st.spec_data() == self.dependency_list_stream->0.data.elements@[0]
                && st.spec_layout() == self.dependency_list_stream->0.layout,
    {
        match &self.dependency_list_stream {
            Some(s) => s.root(),
            None => None,
        }
    }

    /// Mutable handle on the root element of the `want` stream.
    pub fn dependency_list_mut(&mut self) -> (r: Option<TagStructMut<'_>>)
        requires
            old(self).wf(),
        ensures
            r is Some <==> (old(self).dependency_list_stream matches Some(s) && s.data.elements@.len() > 0),
            r matches Some(m) ==> {
                &&& m.inv()
                &&& *m.struct_data == old(self).dependency_list_stream->0.data.elements@[0]
                &&& final(self).dependency_list_stream matches Some(fs) && fs.data.elements@
                    == old(self).dependency_list_stream->0.data.elements@.update(0, *final(m.struct_data))
                    && fs.data.raw_data == *final(m.block_raw)
            },
            final(self).header == old(self).header,
            final(self).tag_stream == old(self).tag_stream,
            final(self).import_info_stream == old(self).import_info_stream,
            final(self).asset_depot_storage_stream == old(self).asset_depot_storage_stream,
    {
        match &mut self.dependency_list_stream {
            Some(s) => s.root_mut(),
            None => None,
        }
    }

    /// Root element of the `info` stream, if the tag has one.
    pub fn import_info(&self) -> (r: Option<TagStruct<'_>>)
        requires
            self.wf(),
        ensures
            r is Some <==> (self.import_info_stream matches Some(s) && s.data.elements@.len() > 0),
            r matches Some(st) ==> st.spec_data() == self.import_info_stream->0.data.elements@[0]
                && st.spec_layout() == self.import_info_stream->0.layout,
    {
        match &self.import_info_stream {
            Some(s) => s.root(),
            None => None,
        }
    }

    /// Mutable handle on the root element of the `info` stream.
    pub fn import_info_mut(&mut self) -> (r: Option<TagStructMut<'_>>)
        requires
            old(self).wf(),
        ensures
            r is Some <==> (old(self).import_info_stream matches Some(s) && s.data.elements@.len() > 0),
            r matches Some(m) ==> {
                &&& m.inv()
                &&& *m.struct_data == old(self).import_info_stream->0.data.elements@[0]
                &&& final(self).import_info_stream matches Some(fs) && fs.data.elements@
                    == old(self).import_info_stream->0.data.elements@.update(0, *final(m.struct_data))
                    && fs.data.raw_data == *final(m.block_raw)
            },
            final(self).header == old(self).header,
            final(self).tag_stream == old(self).tag_stream,
            final(self).dependency_list_stream == old(self).dependency_list_stream,
            final(self).asset_depot_storage_stream == old(self).asset_depot_storage_stream,
    {
        match &mut self.import_info_stream {
            Some(s) => s.root_mut(),
            None => None,
        }
    }

    /// Attach a `want` stream with one default root element of `layout`;
    /// no change when one is already present.
    pub fn add_dependency_list(&mut self, layout: TagLayout)
        requires
            layout.wf(),
        ensures
            old(self).dependency_list_stream is Some ==> final(self).dependency_list_stream == old(self).dependency_list_stream,
            old(self).dependency_list_stream is None ==> (final(self).dependency_list_stream matches Some(s) && s.wf()
                && is_default_stream(layout, s)),
            final(self).header == old(self).header,
            final(self).tag_stream == old(self).tag_stream,
            final(self).import_info_stream == old(self).import_info_stream,
            final(self).asset_depot_storage_stream == old(self).asset_depot_storage_stream,
    {
        if self.dependency_list_stream.is_some() {
            return;
        }
        self.dependency_list_stream = Some(TagStream::new_default(layout));
    }

    /// Drop the `want` stream.
    pub fn remove_dependency_list(&mut self)
        ensures
            final(self).dependency_list_stream is None,
            final(self).header == old(self).header,
            final(self).tag_stream == old(self).tag_stream,
            final(self).import_info_stream == old(self).import_info_stream,
            final(self).asset_depot_storage_stream == old(self).asset_depot_storage_stream,
    {
        self.dependency_list_stream = None;
    }

    /// Attach an `info` stream with one default root element of
    /// `layout`; no change when one is already present.
    pub fn add_import_info(&mut self, layout: TagLayout)
        requires
            layout.wf(),
        ensures
            old(self).import_info_stream is Some ==> final(self).import_info_stream == old(self).import_info_stream,
            old(self).import_info_stream is None ==> (final(self).import_info_stream matches Some(s) && s.wf()
                && is_default_stream(layout, s)),
            final(self).header == old(self).header,
            final(self).tag_stream == old(self).tag_stream,
            final(self).dependency_list_stream == old(self).dependency_list_stream,
            final(self).asset_depot_storage_stream == old(self).asset_depot_storage_stream,
    {
        if self.import_info_stream.is_some() {
            return;
        }
        self.import_info_stream = Some(TagStream::new_default(layout));
    }

    /// Drop the `info` stream.
    pub fn remove_import_info(&mut self)
        ensures
            final(self).import_info_stream is None,
            final(self).header == old(self).header,
            final(self).tag_stream == old(self).tag_stream,
            final(self).dependency_list_stream == old(self).dependency_list_stream,
            final(self).asset_depot_storage_stream == old(self).asset_depot_storage_stream,
    {
        self.import_info_stream = None;
    }

    /// Attach an `assd` stream with one default root element of
    /// `layout`; no change when one is already present.
    pub fn add_asset_depot_storage(&mut self, layout: TagLayout)
        requires
            layout.wf(),
        ensures
            old(self).asset_depot_storage_stream is Some ==> final(self).asset_depot_storage_stream
                == old(self).asset_depot_storage_stream,
            old(self).asset_depot_storage_stream is None ==> (final(self).asset_depot_storage_stream matches Some(s) && s.wf()
                && is_default_stream(layout, s)),
            final(self).header == old(self).header,
            final(self).tag_stream == old(self).tag_stream,
            final(self).dependency_list_stream == old(self).dependency_list_stream,
            final(self).import_info_stream == old(self).import_info_stream,
    {
        if self.asset_depot_storage_stream.is_some() {
            return;
        }
        self.asset_depot_storage_stream = Some(TagStream::new_default(layout));
    }

    /// Drop the `assd` stream.
    pub fn remove_asset_depot_storage(&mut self)
        ensures
            final(self).asset_depot_storage_stream is None,
            final(self).header == old(self).header,
            final(self).tag_stream == old(self).tag_stream,
            final(self).dependency_list_stream == old(self).dependency_list_stream,
            final(self).import_info_stream == old(self).import_info_stream,
    {
        self.asset_depot_storage_stream = None;
    }

    /// The header checksum is left as stored: which bytes the engine's
    /// checksum covers is not known, and fresh tags carry zero.
    pub fn recompute_checksum(&mut self)
        ensures
            *final(self) == *old(self),
    {
    }
}

} // verus!
