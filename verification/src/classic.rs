//! Classic (Halo CE / Halo 2) loose tags.
//!
//! A classic tag is a 64-byte header followed by a flat body laid out
//! depth-first and interpreted entirely by an external layout: each
//! struct's fixed bytes, then the variable data of its fields in field
//! order. A tag block is 12 inline bytes (`count` and two runtime
//! pointers) whose elements' fixed bytes follow contiguously, then each
//! element's own variable data in element order; Halo 2 puts a 16-byte
//! block header (`name`, `version`, `count`, `size`) before the elements
//! of every non-empty block. A data reference is 20 inline bytes (`size`
//! first) followed by `size` blob bytes; a tag reference is 16 inline
//! bytes (`group`, pointer, `length`, id) followed by `length + 1` path
//! bytes unless the group is `-1` or the length 0; a Halo 2 string id
//! is 4 inline bytes (`pad`, `length`, big-endian) followed by `length`
//! bytes.
use vstd::prelude::*;

mod decode;
mod encode;
pub mod image;

use crate::bytes::{
    be_u16, be_u32, le_u16, le_u32, read_u16_be, read_u16_le, read_u32_be, read_u32_le, u32_bytes, u32_to_be, u32_to_le,
    Endian,
};
use crate::data::{entry_of, TagBlockData, TagStructData, TagSubChunkContent};
use crate::file::{TagFile, TagFileHeader, TagStream, BLAM_SIGNATURE};
use crate::layout::TagLayout;
pub use decode::{
    block_decodable, classic_layout, content_decodable, field_decodable, fields_decodable, inline_ranked,
    record_stride, records_decodable, records_fit, root_decodable,
};
use image::{
    block_encodable, block_fixed, block_header, content_piece, enc_block, enc_elems, enc_fields, piece, put_bytes, run_stops,
};

verus! {

/// The classic engine a tag belongs to.
#[derive(Debug, Clone, Copy, PartialEq, Eq, Structural)]
pub enum ClassicEngine {
    /// Halo: Combat Evolved. Big-endian signature words and body.
    HaloCe,
    /// Halo 2. Little-endian (reversed) signature words and body.
    Halo2,
}

/// Byte order of an engine's body.
pub open spec fn engine_endian(e: ClassicEngine) -> Endian {
    match e {
        ClassicEngine::HaloCe => Endian::Be,
        ClassicEngine::Halo2 => Endian::Le,
    }
}

impl ClassicEngine {
    /// Byte order of numeric body fields: big-endian for CE, little-endian
    /// for Halo 2.
    pub fn body_endian(self) -> (r: Endian)
        ensures
            r == engine_endian(self),
    {
        match self {
            ClassicEngine::HaloCe => Endian::Be,
            ClassicEngine::Halo2 => Endian::Le,
        }
    }
}

/// Errors of the classic decoder.
#[derive(Debug)]
pub enum ClassicError {
    /// The file is shorter than the 64-byte header.
    ShortHeader,
    /// The engine word is not a classic engine's.
    NotClassic,
    /// The body ended inside a region; `need` bytes were wanted and
    /// `have` were left.
    UnexpectedEof { context: &'static str, need: usize, have: usize },
    /// The layout walk left body bytes unread.
    TrailingBytes { consumed: usize, total: usize },
}

//================================================================================
// Header
//================================================================================

/// The 64-byte classic header.
#[derive(Debug)]
pub struct ClassicHeader {
    /// Group tag in logical (un-reversed) order.
    pub group_tag: [u8; 4],
    /// Engine signature in logical order (`blam`, `BLM!`, ...).
    pub engine: [u8; 4],
    /// Format version (offset 56).
    pub version: u16,
    /// Stored body checksum (offset 40); `0xFFFFFFFF` marks an
    /// unchecksummed tag.
    pub checksum: u32,
}

/// `b[at..at + 4]` reversed.
pub open spec fn reversed4(b: Seq<u8>, at: int) -> Seq<u8> {
    seq![b[at + 3], b[at + 2], b[at + 1], b[at]]
}

/// `b[at..at + 4]`.
pub open spec fn bytes4(b: Seq<u8>, at: int) -> Seq<u8> {
    seq![b[at], b[at + 1], b[at + 2], b[at + 3]]
}

/// The Halo 2 engine signatures, in logical order.
pub open spec fn is_halo2_signature(s: Seq<u8>) -> bool {
    s == seq![0x42u8, 0x4Cu8, 0x4Du8, 0x21u8] || s == seq![0x4Cu8, 0x41u8, 0x4Du8, 0x42u8] || s == seq![
        0x4Du8,
        0x4Cu8,
        0x41u8,
        0x42u8,
    ] || s == seq![0x42u8, 0x41u8, 0x4Cu8, 0x4Du8]
}

/// The engine a header's offset-60 word names: CE when it reads `blam`
/// in stored order, Halo 2 when its reversal is `BLM!`, `LAMB`, `MLAB`
/// or `BALM`.
pub open spec fn header_engine(b: Seq<u8>) -> Option<ClassicEngine> {
    if b.len() < 64 {
        None
    } else if bytes4(b, 60) == seq![0x62u8, 0x6Cu8, 0x61u8, 0x6Du8] {
        Some(ClassicEngine::HaloCe)
    } else if is_halo2_signature(reversed4(b, 60)) {
        Some(ClassicEngine::Halo2)
    } else {
        None
    }
}

fn take4(b: &[u8], at: usize) -> (r: [u8; 4])
    requires
        at + 4 <= b.len(),
    ensures
        r@ == bytes4(b@, at as int),
{
    let r = [b[at], b[at + 1], b[at + 2], b[at + 3]];
    assert(r@ =~= bytes4(b@, at as int));
    r
}

fn take4_reversed(b: &[u8], at: usize) -> (r: [u8; 4])
    requires
        at + 4 <= b.len(),
    ensures
        r@ == reversed4(b@, at as int),
{
    let r = [b[at + 3], b[at + 2], b[at + 1], b[at]];
    assert(r@ =~= reversed4(b@, at as int));
    r
}

fn same4(a: &[u8; 4], b: &[u8; 4]) -> (r: bool)
    ensures
        r == (a@ == b@),
{
    let r = a[0] == b[0] && a[1] == b[1] && a[2] == b[2] && a[3] == b[3];
    proof {
        if r {
            assert(a@ =~= b@);
        }
    }
    r
}

impl ClassicHeader {
    /// Parse the header and classify its engine; `None` when the bytes
    /// are too short or the engine word is not a classic engine's.
    /// Signature words are un-reversed for Halo 2; the version and
    /// checksum are read in the engine's byte order.
    pub fn parse(bytes: &[u8]) -> (r: Option<(ClassicHeader, ClassicEngine)>)
        ensures
            r is Some <==> header_engine(bytes@) is Some,
            r matches Some((h, e)) ==> {
                &&& header_engine(bytes@) == Some(e)
                &&& e == ClassicEngine::HaloCe ==> {
                    &&& h.group_tag@ == bytes4(bytes@, 36)
                    &&& h.engine@ == bytes4(bytes@, 60)
                    &&& h.version == be_u16(bytes@, 56)
                    &&& h.checksum == be_u32(bytes@, 40)
                }
                &&& e == ClassicEngine::Halo2 ==> {
                    &&& h.group_tag@ == reversed4(bytes@, 36)
                    &&& h.engine@ == reversed4(bytes@, 60)
                    &&& h.version == le_u16(bytes@, 56)
                    &&& h.checksum == le_u32(bytes@, 40)
                }
            },
    {
        if bytes.len() < 64 {
            return None;
        }
        let raw_engine = take4(bytes, 60);
        let reversed_engine = take4_reversed(bytes, 60);
        let blam: [u8; 4] = [0x62, 0x6C, 0x61, 0x6D];
        assert(blam@ =~= seq![0x62u8, 0x6Cu8, 0x61u8, 0x6Du8]);
        if same4(&raw_engine, &blam) {
            let header = ClassicHeader {
                group_tag: take4(bytes, 36),
                engine: raw_engine,
                version: read_u16_be(bytes, 56),
                checksum: read_u32_be(bytes, 40),
            };
            return Some((header, ClassicEngine::HaloCe));
        }
        let s1: [u8; 4] = [0x42, 0x4C, 0x4D, 0x21];
        let s2: [u8; 4] = [0x4C, 0x41, 0x4D, 0x42];
        let s3: [u8; 4] = [0x4D, 0x4C, 0x41, 0x42];
        let s4: [u8; 4] = [0x42, 0x41, 0x4C, 0x4D];
        assert(s1@ =~= seq![0x42u8, 0x4Cu8, 0x4Du8, 0x21u8]);
        assert(s2@ =~= seq![0x4Cu8, 0x41u8, 0x4Du8, 0x42u8]);
        assert(s3@ =~= seq![0x4Du8, 0x4Cu8, 0x41u8, 0x42u8]);
        assert(s4@ =~= seq![0x42u8, 0x41u8, 0x4Cu8, 0x4Du8]);
        if same4(&reversed_engine, &s1) || same4(&reversed_engine, &s2) || same4(&reversed_engine, &s3) || same4(
            &reversed_engine,
            &s4,
        ) {
            let header = ClassicHeader {
                group_tag: take4_reversed(bytes, 36),
                engine: reversed_engine,
                version: read_u16_le(bytes, 56),
                checksum: read_u32_le(bytes, 40),
            };
            return Some((header, ClassicEngine::Halo2));
        }
        None
    }
}

//================================================================================
// Checksum
//================================================================================

/// One shift of the reflected CRC-32 register (polynomial `0xEDB88320`).
pub open spec fn crc_step(r: u32) -> u32 {
    if r & 1 == 1 {
        (r >> 1) ^ 0xEDB8_8320u32
    } else {
        r >> 1
    }
}

/// `n` shifts of the CRC register.
pub open spec fn crc_shifts(r: u32, n: nat) -> u32
    decreases n,
{
    if n == 0 {
        r
    } else {
        crc_shifts(crc_step(r), (n - 1) as nat)
    }
}

/// Entry `i` of the byte-wise CRC table.
pub open spec fn crc_entry(i: u32) -> u32 {
    crc_shifts(i, 8)
}

/// The classic checksum of `bytes`: CRC-32 with initial value
/// `0xFFFFFFFF` and no final inversion.
pub open spec fn crc_of(bytes: Seq<u8>) -> u32
    decreases bytes.len(),
{
    if bytes.len() == 0 {
        0xFFFF_FFFFu32
    } else {
        let c = crc_of(bytes.drop_last());
        crc_entry((c ^ (bytes.last() as u32)) & 0xFF) ^ (c >> 8)
    }
}

/// The standard CRC-32 register (reflected polynomial `0xEDB88320`,
/// initial value `0xFFFFFFFF`) after `bytes`, a bit at a time: each byte is
/// xored into the low bits and shifted through eight times.
pub open spec fn crc32_register(bytes: Seq<u8>) -> u32
    decreases bytes.len(),
{
    if bytes.len() == 0 {
        0xFFFF_FFFFu32
    } else {
        crc_shifts(crc32_register(bytes.drop_last()) ^ (bytes.last() as u32), 8)
    }
}

/// The standard (IEEE) CRC-32 of `bytes`: the register, inverted.
pub open spec fn crc32_ieee(bytes: Seq<u8>) -> u32 {
    crc32_register(bytes) ^ 0xFFFF_FFFFu32
}

/// Eight shifts of the register, written out.
pub open spec fn crc_step8(x: u32) -> u32 {
    crc_step(crc_step(crc_step(crc_step(crc_step(crc_step(crc_step(crc_step(x))))))))
}

proof fn lemma_crc_shifts8(x: u32)
    ensures
        crc_shifts(x, 8) == crc_step8(x),
{
    reveal_with_fuel(crc_shifts, 9);
}

/// One table lookup does the eight shifts of a byte: shifting `c ^ b`
/// eight times is the table entry of its low byte xored with `c >> 8`.
proof fn lemma_crc_byte(c: u32, b: u8)
    ensures
        crc_shifts(c ^ (b as u32), 8) == crc_entry((c ^ (b as u32)) & 0xFF) ^ (c >> 8),
{
    lemma_crc_shifts8(c ^ (b as u32));
    lemma_crc_shifts8((c ^ (b as u32)) & 0xFF);
    assert(crc_step8(c ^ (b as u32)) == crc_step8((c ^ (b as u32)) & 0xFF) ^ (c >> 8)) by (bit_vector);
}

proof fn lemma_crc_of_register(bytes: Seq<u8>)
    ensures
        crc_of(bytes) == crc32_register(bytes),
    decreases bytes.len(),
{
    if bytes.len() > 0 {
        lemma_crc_of_register(bytes.drop_last());
        lemma_crc_byte(crc_of(bytes.drop_last()), bytes.last());
    }
}

/// The classic checksum is the standard CRC-32 without its final
/// inversion: `classic_checksum(body) == crc32_ieee(body) ^ 0xFFFFFFFF`.
pub proof fn lemma_classic_checksum_is_crc32(bytes: Seq<u8>)
    ensures
        crc_of(bytes) == crc32_ieee(bytes) ^ 0xFFFF_FFFFu32,
{
    lemma_crc_of_register(bytes);
    let r = crc32_register(bytes);
    assert(r ^ 0xFFFF_FFFFu32 ^ 0xFFFF_FFFFu32 == r) by (bit_vector);
}

/// The byte-wise CRC table.
fn crc_table() -> (t: Vec<u32>)
    ensures
        t@.len() == 256,
        forall|i: int| 0 <= i < 256 ==> #[trigger] t@[i] == crc_entry(i as u32),
{
    let mut t: Vec<u32> = Vec::new();
    let mut i: u32 = 0;
    while i < 256
        invariant
            i <= 256,
            t@.len() == i,
            forall|k: int| 0 <= k < i ==> #[trigger] t@[k] == crc_entry(k as u32),
        decreases 256 - i,
    {
        let mut r: u32 = i;
        let mut j: u32 = 0;
        while j < 8
            invariant
                j <= 8,
                crc_shifts(r, (8 - j) as nat) == crc_entry(i),
            decreases 8 - j,
        {
            r = if r & 1 == 1 {
                (r >> 1) ^ 0xEDB8_8320
            } else {
                r >> 1
            };
            j = j + 1;
        }
        t.push(r);
        i = i + 1;
    }
    t
}

/// The classic checksum: CRC-32 (polynomial `0xEDB88320`, initial value
/// `0xFFFFFFFF`) over `body`, without the final inversion.
pub fn classic_checksum(body: &[u8]) -> (r: u32)
    ensures
        r == crc_of(body@),
{
    let table = crc_table();
    let mut c: u32 = 0xFFFF_FFFF;
    let mut k: usize = 0;
    assert(body@.take(0) =~= Seq::<u8>::empty());
    while k < body.len()
        invariant
            k <= body@.len(),
            table@.len() == 256,
            forall|i: int| 0 <= i < 256 ==> #[trigger] table@[i] == crc_entry(i as u32),
            c == crc_of(body@.take(k as int)),
        decreases body@.len() - k,
    {
        let byte = body[k];
        let idx = (c ^ byte as u32) & 0xFF;
        assert(idx < 256) by (bit_vector)
            requires
                idx == (c ^ byte as u32) & 0xFF,
        ;
        c = table[idx as usize] ^ (c >> 8);
        assert(body@.take(k + 1).drop_last() =~= body@.take(k as int));
        k = k + 1;
    }
    assert(body@.take(body@.len() as int) =~= body@);
    c
}

//================================================================================
// Bodies
//================================================================================

/// Decode a classic body (everything after the 64-byte header) into the
/// root block: Halo 2 bodies start with a block header whose count and
/// element size govern, CE bodies with the single root element. The
/// walk must consume the whole body. Every byte read is kept verbatim,
/// so the unsynced image of the result is the body itself; and a body
/// that is the image of a root that reads back (see [`root_decodable`])
/// is always decoded.
pub(crate) fn read_classic_body(body: &[u8], layout: &TagLayout, engine: ClassicEngine) -> (r: Result<
    TagBlockData,
    ClassicError,
>)
    requires
        classic_layout(*layout),
    ensures
        r matches Ok(root) ==> {
            &&& enc_block(*layout, root, false) == body@
            &&& block_encodable(*layout, root)
            &&& root.block_index == layout.header.tag_group_block_index
            &&& root.endian == engine_endian(engine)
        },
        r matches Err(ClassicError::TrailingBytes { consumed, total }) ==> total == body@.len() && consumed
            < total,
        forall|w: TagBlockData|
            #![trigger root_decodable(*layout, w, engine)]
            root_decodable(*layout, w, engine) && enc_block(*layout, w, false) == body@ ==> (r matches Ok(root)
                && counts_agree(*layout, root)),
{
    let ghost ranks = choose|ranks: Seq<nat>| inline_ranked(*layout, ranks);
    let endian = engine.body_endian();
    let bi = layout.header.tag_group_block_index;
    let si = layout.block_layouts[bi as usize].struct_index;
    let (root, end) = match engine {
        ClassicEngine::HaloCe => {
            let es = layout.struct_layouts[si as usize].size;
            let res = decode::decode_records(layout, bi, None, 1, es, body, 0, engine, endian, Ghost(ranks));
            proof {
                assert forall|w: TagBlockData|
                    #![trigger root_decodable(*layout, w, engine)]
                    root_decodable(*layout, w, engine) && enc_block(*layout, w, false) == body@ implies (res matches Ok(
                        (b, end),
                    ) && end == body@.len() && counts_agree(*layout, b)) by {
                    let rest = w.raw_data@ + enc_elems(*layout, w.elements@, 1, false);
                    assert(enc_block(*layout, w, false) =~= rest);
                    assert(body@.subrange(0, rest.len() as int) =~= body@);
                    assert(records_fit(*layout, w, si, es as int, engine));
                }
            }
            let (b, end) = match res {
                Ok(x) => x,
                Err(err) => {
                    return Err(err);
                },
            };
            assert(enc_block(*layout, b, false) =~= body@.subrange(0, end as int));
            (b, end)
        },
        ClassicEngine::Halo2 => {
            let (h, count, es, after) = match decode::read_h2_block_header(body, 0) {
                Ok(x) => x,
                Err(err) => {
                    proof {
                        assert forall|w: TagBlockData|
                            #![trigger root_decodable(*layout, w, engine)]
                            root_decodable(*layout, w, engine) implies enc_block(*layout, w, false) != body@ by {
                            let hw = w.classic_block_header->Some_0;
                            assert(enc_block(*layout, w, false) =~= hw@ + (w.raw_data@ + enc_elems(*layout, w.elements@, w.elements@.len() as int, false)));
                        }
                    }
                    return Err(err);
                },
            };
            let ghost hv = h@;
            let res = decode::decode_records(
                layout,
                bi,
                Some(h),
                count,
                es,
                body,
                after,
                engine,
                endian,
                Ghost(ranks),
            );
            proof {
                assert forall|w: TagBlockData|
                    #![trigger root_decodable(*layout, w, engine)]
                    root_decodable(*layout, w, engine) && enc_block(*layout, w, false) == body@ implies (res matches Ok(
                        (b, end),
                    ) && end == body@.len() && counts_agree(*layout, b)) by {
                    let hw = w.classic_block_header->Some_0;
                    let rest = w.raw_data@ + enc_elems(*layout, w.elements@, w.elements@.len() as int, false);
                    assert(enc_block(*layout, w, false) =~= hw@ + rest);
                    assert(body@.subrange(0, body@.len() as int) =~= body@);
                    crate::bytes::lemma_starts_with_split(body@, 0, hw@, rest);
                    assert(hw@ == hv);
                    assert(records_fit(*layout, w, si, es as int, engine));
                }
            }
            let (b, end) = match res {
                Ok(x) => x,
                Err(err) => {
                    return Err(err);
                },
            };
            assert(body@.subrange(0, end as int) =~= hv + body@.subrange(after as int, end as int));
            (b, end)
        },
    };
    if end != body.len() {
        return Err(ClassicError::TrailingBytes { consumed: end, total: body.len() });
    }
    assert(body@.subrange(0, end as int) =~= body@);
    Ok(root)
}

/// Encode a root block: its header and fixed bytes with every inline
/// count slot rewritten from the tree, then all trailing data
/// depth-first.
pub(crate) fn write_classic_body(layout: &TagLayout, root: &TagBlockData) -> (r: Vec<u8>)
    requires
        layout.wf(),
        block_encodable(*layout, *root),
    ensures
        r@ == enc_block(*layout, *root, true),
{
    let mut out: Vec<u8> = Vec::new();
    encode::encode_block(layout, root, &mut out);
    assert(out@ =~= enc_block(*layout, *root, true));
    out
}

/// The checksum word a classic file is written with: the stored
/// `0xFFFFFFFF` "unchecksummed" sentinel is kept, any other stored value
/// is replaced by the checksum of the body.
pub open spec fn written_checksum(stored: u32, body: Seq<u8>) -> u32 {
    if stored == 0xFFFF_FFFF {
        0xFFFF_FFFF
    } else {
        crc_of(body)
    }
}

/// Serialize a complete classic tag: `header` (the original 64 bytes,
/// whose first 36 may carry build strings) kept verbatim but for the
/// checksum word at 40, in the engine's byte order, followed by the
/// re-encoded body ([`write_classic_body`]). The checksum is that of the
/// body, except that the `0xFFFFFFFF` sentinel is kept, so an unmodified
/// tag comes back byte for byte.
pub fn write_classic_tag(file: &TagFile, engine: ClassicEngine, header: &[u8]) -> (r: Vec<u8>)
    requires
        file.tag_stream.layout.wf(),
        block_encodable(file.tag_stream.layout, file.tag_stream.data),
        header@.len() >= 44,
    ensures
        ({
            let body = enc_block(file.tag_stream.layout, file.tag_stream.data, true);
            let c = written_checksum(file.header.checksum, body);
            r@ == put_bytes(header@, 40, u32_bytes(c, engine_endian(engine))) + body
        }),
{
    let body = write_classic_body(&file.tag_stream.layout, &file.tag_stream.data);
    let checksum = if file.header.checksum == 0xFFFF_FFFF {
        0xFFFF_FFFF
    } else {
        classic_checksum(body.as_slice())
    };
    let word = match engine {
        ClassicEngine::HaloCe => u32_to_be(checksum),
        ClassicEngine::Halo2 => u32_to_le(checksum),
    };
    let mut out: Vec<u8> = Vec::new();
    let mut i: usize = 0;
    while i < header.len()
        invariant
            i <= header@.len(),
            header@.len() >= 44,
            word@ == u32_bytes(checksum, engine_endian(engine)),
            out@.len() == i,
            forall|k: int|
                0 <= k < i ==> #[trigger] out@[k] == if 40 <= k < 44 {
                    word@[k - 40]
                } else {
                    header@[k]
                },
        decreases header@.len() - i,
    {
        let b = if 40 <= i && i < 44 {
            word[i - 40]
        } else {
            header[i]
        };
        out.push(b);
        i = i + 1;
    }
    assert(out@ =~= put_bytes(header@, 40, u32_bytes(checksum, engine_endian(engine))));
    let ghost head = out@;
    out.extend_from_slice(body.as_slice());
    assert(out@ =~= head + body@);
    out
}

/// Writing a classic file back with its own header: when the stored
/// checksum is the `0xFFFFFFFF` sentinel or already the body's checksum,
/// the header comes back unchanged, so a body that encodes to itself
/// gives back the file byte for byte.
pub proof fn lemma_classic_file_roundtrip(bytes: Seq<u8>, e: ClassicEngine)
    requires
        bytes.len() >= 64,
        ({
            let stored = crate::bytes::spec_u32_at(bytes, 40, engine_endian(e));
            stored == 0xFFFF_FFFF || stored == crc_of(bytes.skip(64))
        }),
    ensures
        put_bytes(
            bytes.take(64),
            40,
            u32_bytes(
                written_checksum(crate::bytes::spec_u32_at(bytes, 40, engine_endian(e)), bytes.skip(64)),
                engine_endian(e),
            ),
        ) + bytes.skip(64) == bytes,
{
    let h = bytes.take(64);
    decode::lemma_u32_at_bytes(h, 40, engine_endian(e));
    assert(crate::bytes::spec_u32_at(h, 40, engine_endian(e)) == crate::bytes::spec_u32_at(bytes, 40, engine_endian(e)));
    decode::lemma_put_same(h, 40, 4);
    assert(h + bytes.skip(64) =~= bytes);
}

/// Decode a classic body and encode it again. The result is the image of
/// the decoded tree with its inline counts rewritten; when the decoded
/// tree's counts already agree with its contents, that is the body
/// itself (see [`lemma_classic_roundtrip`]). A body that is the image of
/// a root that reads back (see [`root_decodable`]) comes back byte for
/// byte.
pub fn classic_roundtrip(body: &[u8], layout: &TagLayout, engine: ClassicEngine) -> (r: Result<Vec<u8>, ClassicError>)
    requires
        classic_layout(*layout),
    ensures
        forall|w: TagBlockData|
            #![trigger root_decodable(*layout, w, engine)]
            root_decodable(*layout, w, engine) && enc_block(*layout, w, false) == body@ ==> (r matches Ok(out) && out@
                == body@),
        r matches Ok(out) ==> exists|root: TagBlockData|
            {
                &&& enc_block(*layout, root, false) == body@
                &&& #[trigger] enc_block(*layout, root, true) == out@
                &&& counts_agree(*layout, root) ==> out@ == body@
            },
        r matches Err(ClassicError::TrailingBytes { consumed, total }) ==> total == body@.len() && consumed
            < total,
{
    let root = read_classic_body(body, layout, engine)?;
    let out = write_classic_body(layout, &root);
    proof {
        if counts_agree(*layout, root) {
            lemma_classic_roundtrip(*layout, root);
        }
    }
    Ok(out)
}

//================================================================================
// Counts that agree with the tree
//================================================================================

/// Every inline count of block `b` (its Halo 2 header count and the
/// count slots of its elements' fixed bytes) already holds what the
/// encoder would write, and so do those of every nested block.
pub open spec fn counts_agree(layout: TagLayout, b: TagBlockData) -> bool
    decreases b, 2int,
{
    &&& block_header(b, true) == block_header(b, false)
    &&& block_fixed(layout, b, true) == block_fixed(layout, b, false)
    &&& forall|k: int| 0 <= k < b.elements@.len() ==> struct_counts_agree(layout, #[trigger] b.elements@[k])
}

/// The nested blocks under struct `d` have agreeing counts.
pub open spec fn struct_counts_agree(layout: TagLayout, d: TagStructData) -> bool
    decreases d, 1int,
{
    &&& d.struct_index < layout.struct_layouts@.len()
    &&& forall|g: int|
        #![trigger layout.field_of_struct(d.struct_index as int, g)]
        layout.field_of_struct(d.struct_index as int, g) ==> match entry_of(d.sub_chunks@, g) {
            Some(j) => 0 <= j < d.sub_chunks@.len() ==> content_counts_agree(layout, d.sub_chunks@[j].content),
            None => true,
        }
}

/// The nested blocks under a payload have agreeing counts.
pub open spec fn content_counts_agree(layout: TagLayout, c: TagSubChunkContent) -> bool
    decreases c, 0int,
{
    match c {
        TagSubChunkContent::Block(b) => counts_agree(layout, b),
        TagSubChunkContent::Struct(child) => struct_counts_agree(layout, child),
        TagSubChunkContent::Array(els) => forall|k: int|
            0 <= k < els@.len() ==> struct_counts_agree(layout, #[trigger] els@[k]),
        _ => true,
    }
}

/// Encoding is the inverse of decoding: a block whose inline counts
/// agree with its contents encodes to exactly its stored image, so a
/// body decoded and encoded again comes back byte for byte.
pub proof fn lemma_classic_roundtrip(layout: TagLayout, b: TagBlockData)
    requires
        layout.wf(),
        counts_agree(layout, b),
    ensures
        enc_block(layout, b, true) == enc_block(layout, b, false),
    decreases b, 0int,
{
    lemma_elems_agree(layout, b.elements@, b.elements@.len() as int);
}

proof fn lemma_elems_agree(layout: TagLayout, els: Seq<TagStructData>, n: int)
    requires
        layout.wf(),
        n <= els.len(),
        forall|k: int| 0 <= k < n ==> struct_counts_agree(layout, #[trigger] els[k]),
    ensures
        enc_elems(layout, els, n, true) == enc_elems(layout, els, n, false),
    decreases els, n,
{
    if n > 0 {
        lemma_elems_agree(layout, els, n - 1);
        let d = els[n - 1];
        assert(struct_counts_agree(layout, d));
        lemma_fields_agree(layout, d, layout.struct_layouts@[d.struct_index as int].first_field_index as int);
    }
}

proof fn lemma_fields_agree(layout: TagLayout, d: TagStructData, fi: int)
    requires
        layout.wf(),
        struct_counts_agree(layout, d),
        layout.first_field(d.struct_index as int) <= fi,
        layout.no_terminator_between(layout.first_field(d.struct_index as int), fi),
    ensures
        enc_fields(layout, d, fi, true) == enc_fields(layout, d, fi, false),
    decreases d, layout.fields@.len() - fi,
{
    if !run_stops(layout, fi) {
        assert(layout.field_of_struct(d.struct_index as int, fi));
        if let Some(j) = entry_of(d.sub_chunks@, fi) {
            if 0 <= j < d.sub_chunks@.len() {
                lemma_content_agree(layout, d.sub_chunks@[j].content);
            }
        }
        assert(piece(layout, d, fi, true) == piece(layout, d, fi, false));
        lemma_fields_agree(layout, d, fi + 1);
    }
}

proof fn lemma_content_agree(layout: TagLayout, c: TagSubChunkContent)
    requires
        layout.wf(),
        content_counts_agree(layout, c),
    ensures
        content_piece(layout, c, true) == content_piece(layout, c, false),
    decreases c, 0int,
{
    match c {
        TagSubChunkContent::Block(b) => {
            lemma_classic_roundtrip(layout, b);
        },
        TagSubChunkContent::Struct(child) => {
            lemma_fields_agree(layout, child, layout.struct_layouts@[child.struct_index as int].first_field_index as int);
        },
        TagSubChunkContent::Array(els) => {
            lemma_elems_agree(layout, els@, els@.len() as int);
        },
        _ => {},
    }
}

//================================================================================
// Whole files
//================================================================================

/// Read a classic tag file: its header (for the engine, group, version
/// and stored checksum) and its body decoded with `layout`. The result
/// carries a `BLAM` header with the group tag (logical order, packed
/// big-endian), the version and the stored checksum. Input shorter than
/// the 64-byte header is `ShortHeader`; a header whose engine word is not
/// a classic engine is `NotClassic`. The layout is needed (and must pass
/// the layout check) only once there is a classic body to decode.
pub fn read_classic_tag_file(bytes: &[u8], layout: TagLayout) -> (r: Result<TagFile, ClassicError>)
    requires
        bytes@.len() >= 64 && header_engine(bytes@) is Some ==> classic_layout(layout),
    ensures
        bytes@.len() < 64 ==> r matches Err(ClassicError::ShortHeader),
        bytes@.len() >= 64 && header_engine(bytes@) is None ==> r matches Err(ClassicError::NotClassic),
        forall|w: TagBlockData|
            #![trigger root_decodable(layout, w, header_engine(bytes@)->Some_0)]
            bytes@.len() >= 64 && header_engine(bytes@) is Some && root_decodable(layout, w, header_engine(bytes@)->Some_0)
                && enc_block(layout, w, false) == bytes@.skip(64) ==> (r matches Ok(f) && enc_block(
                layout,
                f.tag_stream.data,
                true,
            ) == bytes@.skip(64)),
        r matches Ok(f) ==> {
            let e = header_engine(bytes@).unwrap();
            &&& f.tag_stream.layout == layout
            &&& enc_block(layout, f.tag_stream.data, false) == bytes@.skip(64)
            &&& f.tag_stream.data.endian == engine_endian(e)
            &&& f.header.signature == BLAM_SIGNATURE
            &&& f.header.group_tag == (if e == ClassicEngine::HaloCe {
                be_u32(bytes@, 36)
            } else {
                le_u32(bytes@, 36)
            })
            &&& f.header.version == (if e == ClassicEngine::HaloCe {
                be_u16(bytes@, 56)
            } else {
                le_u16(bytes@, 56)
            }) as u32
            &&& f.header.checksum == (if e == ClassicEngine::HaloCe {
                be_u32(bytes@, 40)
            } else {
                le_u32(bytes@, 40)
            })
            &&& f.dependency_list_stream is None
            &&& f.import_info_stream is None
            &&& f.asset_depot_storage_stream is None
        },
{
    if bytes.len() < 64 {
        return Err(ClassicError::ShortHeader);
    }
    let (header, engine) = match ClassicHeader::parse(bytes) {
        Some(x) => x,
        None => {
            return Err(ClassicError::NotClassic);
        },
    };
    let body = vstd::slice::slice_subrange(bytes, 64, bytes.len());
    assert(body@ =~= bytes@.skip(64));
    let root = read_classic_body(body, &layout, engine)?;
    proof {
        if counts_agree(layout, root) {
            lemma_classic_roundtrip(layout, root);
        }
    }
    let group_tag = read_u32_be(&header.group_tag, 0);
    proof {
        assert(header.group_tag@.len() == 4);
        if engine == ClassicEngine::HaloCe {
            assert(be_u32(header.group_tag@, 0) == be_u32(bytes@, 36));
        } else {
            assert(be_u32(header.group_tag@, 0) == le_u32(bytes@, 36));
        }
    }
    let file_header = TagFileHeader {
        pad: [0u8; 36],
        build_version: 0,
        build_number: 0,
        version: header.version as u32,
        group_tag,
        group_version: 0,
        checksum: header.checksum,
        signature: BLAM_SIGNATURE,
    };
    Ok(TagFile {
        header: file_header,
        tag_stream: TagStream { layout, data: root },
        dependency_list_stream: None,
        import_info_stream: None,
        asset_depot_storage_stream: None,
    })
}

} // verus!
