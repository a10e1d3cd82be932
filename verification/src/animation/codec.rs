//! The integer side of the animation codec streams: codec headers, the
//! byte extent of an animated stream, the node-flag tables, and the
//! sampling plans of the full-frame and keyframe codecs (which bytes
//! hold each node's value at each frame, and between which keys a frame
//! falls). Turning the planned bytes into rotations, translations and
//! scales is floating-point work left to the caller.
use vstd::prelude::*;

use crate::animation::{
    codec_of, is_reach_only_name, size_named, words_of, AnimatedStreamStatus, AnimationError, AnimationGroup, BitArray,
    Codec, MovementKind, NodeFlags, PackedDataSizes, SizeLayout,
};
use crate::bytes::{le_u16, le_u32, read_u16_le, read_u32_le};

verus! {

//================================================================================
// Headers
//================================================================================

/// The fields used from the 20-byte codec header that opens every codec
/// stream (byte 0, the codec number, is read separately).
#[derive(Debug, Clone, Copy)]
pub struct AnimationCodecHeader {
    pub total_rotated_nodes: u8,
    pub total_translated_nodes: u8,
    pub total_scaled_nodes: u8,
    pub translation_offset: u32,
    pub scale_offset: u32,
}

/// The codec header stored at the start of `b`.
pub open spec fn codec_header_of(b: Seq<u8>) -> AnimationCodecHeader {
    AnimationCodecHeader {
        total_rotated_nodes: b[1],
        total_translated_nodes: b[2],
        total_scaled_nodes: b[3],
        translation_offset: le_u32(b, 12),
        scale_offset: le_u32(b, 16),
    }
}

impl AnimationCodecHeader {
    /// Read the header; `None` when fewer than 20 bytes are given.
    pub fn from_bytes(bytes: &[u8]) -> (r: Option<Self>)
        ensures
            bytes@.len() < 20 <==> r is None,
            r matches Some(h) ==> h == codec_header_of(bytes@),
    {
        if bytes.len() < 20 {
            return None;
        }
        Some(
            AnimationCodecHeader {
                total_rotated_nodes: bytes[1],
                total_translated_nodes: bytes[2],
                total_scaled_nodes: bytes[3],
                translation_offset: read_u32_le(bytes, 12),
                scale_offset: read_u32_le(bytes, 16),
            },
        )
    }
}

/// The 32-byte full-frame codec header: the codec header and the byte
/// stride between consecutive nodes of each component.
#[derive(Debug, Clone, Copy)]
pub struct FullframeCodecHeader {
    pub base: AnimationCodecHeader,
    pub rotation_stride: u32,
    pub translation_stride: u32,
    pub scale_stride: u32,
}

/// The full-frame header stored at the start of `b`.
pub open spec fn fullframe_header_of(b: Seq<u8>) -> FullframeCodecHeader {
    FullframeCodecHeader {
        base: codec_header_of(b),
        rotation_stride: le_u32(b, 20),
        translation_stride: le_u32(b, 24),
        scale_stride: le_u32(b, 28),
    }
}

impl FullframeCodecHeader {
    /// Read the header; `None` when fewer than 32 bytes are given.
    pub fn from_bytes(bytes: &[u8]) -> (r: Option<Self>)
        ensures
            bytes@.len() < 32 <==> r is None,
            r matches Some(h) ==> h == fullframe_header_of(bytes@),
    {
        if bytes.len() < 32 {
            return None;
        }
        let base = AnimationCodecHeader::from_bytes(bytes).unwrap();
        Some(
            FullframeCodecHeader {
                base,
                rotation_stride: read_u32_le(bytes, 20),
                translation_stride: read_u32_le(bytes, 24),
                scale_stride: read_u32_le(bytes, 28),
            },
        )
    }
}

/// The 48-byte keyframe codec header: the codec header and, per
/// component, where its key-time table and key-payload table start.
#[derive(Debug, Clone, Copy)]
pub struct KeyframeCodecHeader {
    pub base: AnimationCodecHeader,
    pub rotation_key_time_offset: u32,
    pub translation_key_time_offset: u32,
    pub scale_key_time_offset: u32,
    pub rotation_key_payload_offset: u32,
    pub translation_key_payload_offset: u32,
    pub scale_key_payload_offset: u32,
}

/// The keyframe header stored at the start of `b`.
pub open spec fn keyframe_header_of(b: Seq<u8>) -> KeyframeCodecHeader {
    KeyframeCodecHeader {
        base: codec_header_of(b),
        rotation_key_time_offset: le_u32(b, 20),
        translation_key_time_offset: le_u32(b, 24),
        scale_key_time_offset: le_u32(b, 28),
        rotation_key_payload_offset: le_u32(b, 32),
        translation_key_payload_offset: le_u32(b, 36),
        scale_key_payload_offset: le_u32(b, 40),
    }
}

impl KeyframeCodecHeader {
    /// Read the header; `None` when fewer than 48 bytes are given.
    pub fn from_bytes(bytes: &[u8]) -> (r: Option<Self>)
        ensures
            bytes@.len() < 48 <==> r is None,
            r matches Some(h) ==> h == keyframe_header_of(bytes@),
    {
        if bytes.len() < 48 {
            return None;
        }
        let base = AnimationCodecHeader::from_bytes(bytes).unwrap();
        Some(
            KeyframeCodecHeader {
                base,
                rotation_key_time_offset: read_u32_le(bytes, 20),
                translation_key_time_offset: read_u32_le(bytes, 24),
                scale_key_time_offset: read_u32_le(bytes, 28),
                rotation_key_payload_offset: read_u32_le(bytes, 32),
                translation_key_payload_offset: read_u32_le(bytes, 36),
                scale_key_payload_offset: read_u32_le(bytes, 40),
            },
        )
    }
}

//================================================================================
// Stream extent
//================================================================================

/// `max(a, b)`.
pub open spec fn max_int(a: int, b: int) -> int {
    if a >= b {
        a
    } else {
        b
    }
}

/// Bytes a full-frame stream with header `h` spans: the end of its
/// rotation block (from byte 32) or of its translation or scale block
/// (from the header's offsets), whichever is furthest.
pub open spec fn fullframe_extent(h: FullframeCodecHeader) -> int {
    let rot_end = 32 + h.base.total_rotated_nodes * h.rotation_stride;
    let trans_end = if h.base.total_translated_nodes > 0 {
        h.base.translation_offset + h.base.total_translated_nodes * h.translation_stride
    } else {
        0
    };
    let scale_end = if h.base.total_scaled_nodes > 0 {
        h.base.scale_offset + h.base.total_scaled_nodes * h.scale_stride
    } else {
        0
    };
    max_int(max_int(rot_end, trans_end), scale_end)
}

/// Key count (the low 12 bits) of packed node entry `i` of a keyframe
/// stream; 0 when the entry lies past the end of `b`.
pub open spec fn packed_key_count(b: Seq<u8>, i: int) -> nat {
    if 48 + 4 * i + 4 <= b.len() {
        (le_u32(b, 48 + 4 * i) % 4096) as nat
    } else {
        0
    }
}

/// Total key count of packed node entries `start .. start + n`.
pub open spec fn key_count_sum(b: Seq<u8>, start: int, n: int) -> nat
    decreases n,
{
    if n <= 0 {
        0
    } else {
        key_count_sum(b, start, n - 1) + packed_key_count(b, start + n - 1)
    }
}

/// Bytes a keyframe stream `b` with header `h` spans: the furthest end of
/// its three payload tables (8-, 12- and 4-byte keys) and three time
/// tables (`time_size` bytes per key).
pub open spec fn keyframe_extent(b: Seq<u8>, h: KeyframeCodecHeader, time_size: int) -> int {
    let n_rot = h.base.total_rotated_nodes as int;
    let n_trans = h.base.total_translated_nodes as int;
    let n_scale = h.base.total_scaled_nodes as int;
    let rot_keys = key_count_sum(b, 0, n_rot) as int;
    let trans_keys = key_count_sum(b, n_rot, n_trans) as int;
    let scale_keys = key_count_sum(b, n_rot + n_trans, n_scale) as int;
    max_int(
        max_int(
            max_int(h.rotation_key_payload_offset + rot_keys * 8, h.translation_key_payload_offset + trans_keys * 12),
            max_int(h.scale_key_payload_offset + scale_keys * 4, h.rotation_key_time_offset + rot_keys * time_size),
        ),
        max_int(h.translation_key_time_offset + trans_keys * time_size, h.scale_key_time_offset + scale_keys * time_size),
    )
}

/// Whether `c` is a full-frame codec (slots 1, 2, 3 and 8).
pub open spec fn is_fullframe(c: Codec) -> bool {
    c is UncompressedStatic || c is UncompressedAnimated || c is EightByteQuantizedRotationOnly || c is BlendScreen
}

/// Whether `c` is a keyframe codec (slots 4 to 7).
pub open spec fn is_keyframe(c: Codec) -> bool {
    c is ByteKeyframeLightlyQuantized || c is WordKeyframeLightlyQuantized || c is ReverseByteKeyframeLightlyQuantized
        || c is ReverseWordKeyframeLightlyQuantized
}

/// Bytes per key time of a keyframe codec: one for the byte variants,
/// two for the word variants.
pub open spec fn key_time_size(c: Codec) -> int {
    if c is ByteKeyframeLightlyQuantized || c is ReverseByteKeyframeLightlyQuantized {
        1
    } else {
        2
    }
}

/// The byte extent of an animated stream `b` of codec `c`, if the codec
/// has a known layout and its header is present.
pub open spec fn stream_extent(b: Seq<u8>, c: Codec) -> Option<int> {
    if is_fullframe(c) {
        if b.len() < 32 {
            None
        } else {
            Some(fullframe_extent(fullframe_header_of(b)))
        }
    } else if is_keyframe(c) {
        if b.len() < 48 {
            None
        } else {
            Some(keyframe_extent(b, keyframe_header_of(b), key_time_size(c)))
        }
    } else {
        None
    }
}

/// Sum the key counts of packed entries `start .. start + n`.
fn sum_key_counts(blob: &[u8], start: u64, n: u64) -> (r: u64)
    requires
        start + n <= 765,
    ensures
        r == key_count_sum(blob@, start as int, n as int),
        r <= 4095 * n,
{
    let mut total: u64 = 0;
    let mut k: u64 = 0;
    while k < n
        invariant
            k <= n,
            start + n <= 765,
            total == key_count_sum(blob@, start as int, k as int),
            total <= 4095 * k,
        decreases n - k,
    {
        let i = start + k;
        let off = 48 + 4 * i;
        let c: u64 = if (off as u128) + 4 <= (blob.len() as u128) {
            let pd = read_u32_le(blob, off as usize);
            (pd % 4096) as u64
        } else {
            0
        };
        total = total + c;
        k = k + 1;
    }
    total
}

/// Byte size of an animated codec stream, for locating what follows it
/// ([`stream_extent`]). `None` for codecs without a known layout, a
/// missing header, or a size beyond `usize`.
pub fn animated_codec_stream_size(blob: &[u8], codec: Codec) -> (r: Option<usize>)
    ensures
        match stream_extent(blob@, codec) {
            Some(e) => if e <= usize::MAX {
                r == Some(e as usize)
            } else {
                r is None
            },
            None => r is None,
        },
{
    match codec {
        Codec::UncompressedStatic | Codec::UncompressedAnimated | Codec::EightByteQuantizedRotationOnly
        | Codec::BlendScreen => {
            let h = match FullframeCodecHeader::from_bytes(blob) {
                Some(h) => h,
                None => return None,
            };
            let n_rot = h.base.total_rotated_nodes as u64;
            let n_trans = h.base.total_translated_nodes as u64;
            let n_scale = h.base.total_scaled_nodes as u64;
            assert(n_rot * (h.rotation_stride as u64) <= 255 * 0xffff_ffff) by (nonlinear_arith)
                requires
                    n_rot <= 255,
                    h.rotation_stride <= 0xffff_ffff,
            ;
            assert(n_trans * (h.translation_stride as u64) <= 255 * 0xffff_ffff) by (nonlinear_arith)
                requires
                    n_trans <= 255,
                    h.translation_stride <= 0xffff_ffff,
            ;
            assert(n_scale * (h.scale_stride as u64) <= 255 * 0xffff_ffff) by (nonlinear_arith)
                requires
                    n_scale <= 255,
                    h.scale_stride <= 0xffff_ffff,
            ;
            let rot_end = 32 + n_rot * (h.rotation_stride as u64);
            let trans_end = if n_trans > 0 {
                h.base.translation_offset as u64 + n_trans * (h.translation_stride as u64)
            } else {
                0
            };
            let scale_end = if n_scale > 0 {
                h.base.scale_offset as u64 + n_scale * (h.scale_stride as u64)
            } else {
                0
            };
            let m1 = if rot_end >= trans_end {
                rot_end
            } else {
                trans_end
            };
            let m = if m1 >= scale_end {
                m1
            } else {
                scale_end
            };
            if m as u128 <= usize::MAX as u128 {
                Some(m as usize)
            } else {
                None
            }
        },
        Codec::ByteKeyframeLightlyQuantized | Codec::WordKeyframeLightlyQuantized
        | Codec::ReverseByteKeyframeLightlyQuantized | Codec::ReverseWordKeyframeLightlyQuantized => {
            let h = match KeyframeCodecHeader::from_bytes(blob) {
                Some(h) => h,
                None => return None,
            };
            let n_rot = h.base.total_rotated_nodes as u64;
            let n_trans = h.base.total_translated_nodes as u64;
            let n_scale = h.base.total_scaled_nodes as u64;
            let rot_keys = sum_key_counts(blob, 0, n_rot);
            let trans_keys = sum_key_counts(blob, n_rot, n_trans);
            let scale_keys = sum_key_counts(blob, n_rot + n_trans, n_scale);
            let time_size: u64 = match codec {
                Codec::ByteKeyframeLightlyQuantized | Codec::ReverseByteKeyframeLightlyQuantized => 1,
                _ => 2,
            };
            let ends: [u64; 6] = [
                h.rotation_key_payload_offset as u64 + rot_keys * 8,
                h.translation_key_payload_offset as u64 + trans_keys * 12,
                h.scale_key_payload_offset as u64 + scale_keys * 4,
                h.rotation_key_time_offset as u64 + rot_keys * time_size,
                h.translation_key_time_offset as u64 + trans_keys * time_size,
                h.scale_key_time_offset as u64 + scale_keys * time_size,
            ];
            let a = if ends[0] >= ends[1] {
                ends[0]
            } else {
                ends[1]
            };
            let b = if ends[2] >= ends[3] {
                ends[2]
            } else {
                ends[3]
            };
            let c = if ends[4] >= ends[5] {
                ends[4]
            } else {
                ends[5]
            };
            let ab = if a >= b {
                a
            } else {
                b
            };
            let m = if ab >= c {
                ab
            } else {
                c
            };
            if m as u128 <= usize::MAX as u128 {
                Some(m as usize)
            } else {
                None
            }
        },
        _ => None,
    }
}

//================================================================================
// Node flags
//================================================================================

/// The words of `b[lo..hi]` when the range is non-empty, else none.
pub open spec fn flag_words(b: Seq<u8>, lo: int, hi: int) -> Seq<u32> {
    if hi > lo {
        words_of(b.subrange(lo, hi))
    } else {
        Seq::empty()
    }
}

/// Whether the flag tables at `off` (a static triplet of `st` bytes,
/// then an animated triplet of `at` bytes) can be read from `b`.
pub open spec fn node_flags_readable(b: Seq<u8>, off: int, st: int, at: int) -> bool {
    &&& !(st == 0 && at == 0)
    &&& st % 3 == 0
    &&& at % 3 == 0
    &&& off + st + at <= b.len()
}

/// `r` is what reading the flag tables at `off` (static triplet of `st`
/// bytes, animated triplet of `at` bytes) from `b` gives.
pub open spec fn node_flags_hold(r: Option<NodeFlags>, b: Seq<u8>, off: int, st: int, at: int) -> bool {
    &&& r is Some <==> node_flags_readable(b, off, st, at)
    &&& r matches Some(f) ==> {
        let sp = st / 3;
        let ap = at / 3;
        let a = off + st;
        &&& f.static_rotation.words@ == flag_words(b, off, off + sp)
        &&& f.static_translation.words@ == flag_words(b, off + sp, off + 2 * sp)
        &&& f.static_scale.words@ == flag_words(b, off + 2 * sp, a)
        &&& f.animated_rotation.words@ == flag_words(b, a, a + ap)
        &&& f.animated_translation.words@ == flag_words(b, a + ap, a + 2 * ap)
        &&& f.animated_scale.words@ == flag_words(b, a + 2 * ap, a + at)
    }
}

fn words_in(blob: &[u8], lo: usize, hi: usize) -> (r: BitArray)
    requires
        lo <= hi <= blob@.len(),
    ensures
        r.words@ == words_of(blob@.subrange(lo as int, hi as int)),
{
    BitArray::from_bytes(vstd::slice::slice_subrange(blob, lo, hi))
}

/// Read the six node-flag bit arrays: a static triplet (rotation,
/// translation, scale) of `static_total` bytes at `static_off`, then an
/// animated triplet of `animated_total` bytes, each triplet split in
/// three equal parts. `None` when both totals are zero, a total is not
/// a multiple of three, or the tables run past the blob.
pub fn read_node_flags(blob: &[u8], static_off: usize, static_total: usize, animated_total: usize) -> (r: Option<
    NodeFlags,
>)
    ensures
        node_flags_hold(r, blob@, static_off as int, static_total as int, animated_total as int),
{
    let n = blob.len();
    if static_total == 0 && animated_total == 0 {
        return None;
    }
    if static_total % 3 != 0 || animated_total % 3 != 0 {
        return None;
    }
    let static_end = match static_off.checked_add(static_total) {
        Some(e) => e,
        None => return None,
    };
    let animated_end = match static_end.checked_add(animated_total) {
        Some(e) => e,
        None => return None,
    };
    if animated_end > blob.len() {
        return None;
    }
    let sp = static_total / 3;
    let ap = animated_total / 3;
    let mut out = NodeFlags {
        static_rotation: BitArray { words: Vec::new() },
        static_translation: BitArray { words: Vec::new() },
        static_scale: BitArray { words: Vec::new() },
        animated_rotation: BitArray { words: Vec::new() },
        animated_translation: BitArray { words: Vec::new() },
        animated_scale: BitArray { words: Vec::new() },
    };
    if sp > 0 {
        out.static_rotation = words_in(blob, static_off, static_off + sp);
        out.static_translation = words_in(blob, static_off + sp, static_off + 2 * sp);
        out.static_scale = words_in(blob, static_off + 2 * sp, static_end);
    }
    if ap > 0 {
        let a = static_end;
        out.animated_rotation = words_in(blob, a, a + ap);
        out.animated_translation = words_in(blob, a + ap, a + 2 * ap);
        out.animated_scale = words_in(blob, a + 2 * ap, animated_end);
    }
    Some(out)
}

//================================================================================
// Keyframe sampling plan
//================================================================================

/// One node's value at one frame, located in the codec stream.
#[derive(Debug, Clone, Copy, PartialEq, Eq, Structural)]
pub enum FrameSample {
    /// The node has no keys: the component's identity value.
    Identity,
    /// The value stored at this byte offset, as is.
    Key(usize),
    /// Between the values stored at `from` (keyed at frame `t_from`) and
    /// at `to` (keyed at `t_to`), at frame `frame`.
    Blend { from: usize, to: usize, t_from: u32, t_to: u32, frame: u32 },
}

/// Key time `i` of a table at `start` with `ts`-byte entries.
pub open spec fn key_time(b: Seq<u8>, ts: int, start: int, i: int) -> u32 {
    if ts == 1 {
        b[start + i] as u32
    } else {
        le_u16(b, start + 2 * i) as u32
    }
}

/// Length of the run of keys from `i` on whose times are at most `f`.
pub open spec fn run_to(b: Seq<u8>, ts: int, start: int, count: int, f: int, i: int) -> int
    decreases count - i,
{
    if i >= count || key_time(b, ts, start, i) > f {
        i
    } else {
        run_to(b, ts, start, count, f, i + 1)
    }
}

/// The bracketing key of frame `f`: the last key of the leading run of
/// keys timed at or before `f` (the first key when there is none).
pub open spec fn bracket(b: Seq<u8>, ts: int, start: int, count: int, f: int) -> int {
    let l = run_to(b, ts, start, count, f, 0);
    if l == 0 {
        0
    } else {
        l - 1
    }
}

/// Where a node's keys live: its time table and payload table starts.
pub open spec fn node_time_start(ts: int, tts: int, pack: (u32, u32)) -> int {
    tts + pack.0 * ts
}

/// Start of a node's key payloads.
pub open spec fn node_payload_start(pts: int, elem: int, pack: (u32, u32)) -> int {
    pts + pack.0 * elem
}

/// Furthest byte a node's keys reach.
pub open spec fn node_end(ts: int, tts: int, pts: int, elem: int, pack: (u32, u32)) -> int {
    max_int(node_time_start(ts, tts, pack) + pack.1 * ts, node_payload_start(pts, elem, pack) + pack.1 * elem)
}

/// A node's keys lie inside the stream (or it has none).
pub open spec fn node_fits(len: int, ts: int, tts: int, pts: int, elem: int, pack: (u32, u32)) -> bool {
    pack.1 == 0 || node_end(ts, tts, pts, elem, pack) <= len
}

/// The sample of a node with packed entry `pack` at frame `f`: its one
/// key when it has one; its first key at or before the first key time and
/// its last key at or after the last; otherwise a blend of the keys that
/// bracket `f`.
pub open spec fn node_sample(b: Seq<u8>, ts: int, tts: int, pts: int, elem: int, pack: (u32, u32), f: int) -> FrameSample {
    let count = pack.1 as int;
    let t0 = node_time_start(ts, tts, pack);
    let p0 = node_payload_start(pts, elem, pack);
    if count == 0 {
        FrameSample::Identity
    } else if count == 1 {
        FrameSample::Key(p0 as usize)
    } else if f <= key_time(b, ts, t0, 0) {
        FrameSample::Key(p0 as usize)
    } else {
        let br = bracket(b, ts, t0, count, f);
        if br == count - 1 {
            FrameSample::Key((p0 + br * elem) as usize)
        } else {
            FrameSample::Blend {
                from: (p0 + br * elem) as usize,
                to: (p0 + (br + 1) * elem) as usize,
                t_from: key_time(b, ts, t0, br),
                t_to: key_time(b, ts, t0, br + 1),
                frame: f as u32,
            }
        }
    }
}

/// The first node, from `k` on, whose keys run past the stream.
pub open spec fn first_unfit(
    len: int,
    ts: int,
    tts: int,
    pts: int,
    elem: int,
    packs: Seq<(u32, u32)>,
    k: int,
) -> Option<int>
    decreases packs.len() - k,
{
    if k < 0 || k >= packs.len() {
        None
    } else if !node_fits(len, ts, tts, pts, elem, packs[k]) {
        Some(k)
    } else {
        first_unfit(len, ts, tts, pts, elem, packs, k + 1)
    }
}

proof fn lemma_run_to_all(b: Seq<u8>, ts: int, start: int, count: int, f: int, i: int)
    requires
        0 <= i <= count,
        forall|k: int| i <= k < count ==> key_time(b, ts, start, k) <= f,
    ensures
        run_to(b, ts, start, count, f, i) == count,
    decreases count - i,
{
    if i < count {
        lemma_run_to_all(b, ts, start, count, f, i + 1);
    }
}

/// A frame at or after every key time of a node takes the node's last
/// key as is (no extrapolation past the last key).
pub proof fn lemma_past_last_key_holds_last(
    b: Seq<u8>,
    ts: int,
    tts: int,
    pts: int,
    elem: int,
    pack: (u32, u32),
    f: int,
)
    requires
        pack.1 >= 1,
        forall|i: int| 0 <= i < pack.1 ==> key_time(b, ts, node_time_start(ts, tts, pack), i) <= f,
        pack.1 >= 2 ==> key_time(b, ts, node_time_start(ts, tts, pack), 0) < f,
    ensures
        node_sample(b, ts, tts, pts, elem, pack, f) == FrameSample::Key(
            (node_payload_start(pts, elem, pack) + (pack.1 - 1) * elem) as usize,
        ),
{
    lemma_run_to_all(b, ts, node_time_start(ts, tts, pack), pack.1 as int, f, 0);
    if pack.1 == 1 {
        assert((pack.1 - 1) * elem == 0) by (nonlinear_arith)
            requires
                pack.1 == 1,
        ;
    }
}

/// A frame at or before a node's first key time takes the node's first
/// key as is (no extrapolation before the first key).
pub proof fn lemma_before_first_key_holds_first(
    b: Seq<u8>,
    ts: int,
    tts: int,
    pts: int,
    elem: int,
    pack: (u32, u32),
    f: int,
)
    requires
        pack.1 >= 1,
        f <= key_time(b, ts, node_time_start(ts, tts, pack), 0),
    ensures
        node_sample(b, ts, tts, pts, elem, pack, f) == FrameSample::Key(node_payload_start(pts, elem, pack) as usize),
{
}

/// The run of keys from `i` on that are timed at or before `f` ends at
/// the first key after `f` (or at the last key).
proof fn lemma_run_to_bounds(b: Seq<u8>, ts: int, start: int, count: int, f: int, i: int)
    requires
        0 <= i <= count,
    ensures
        i <= run_to(b, ts, start, count, f, i) <= count,
        forall|k: int| i <= k < run_to(b, ts, start, count, f, i) ==> key_time(b, ts, start, k) <= f,
        run_to(b, ts, start, count, f, i) < count ==> key_time(b, ts, start, run_to(b, ts, start, count, f, i)) > f,
    decreases count - i,
{
    if i < count && key_time(b, ts, start, i) <= f {
        lemma_run_to_bounds(b, ts, start, count, f, i + 1);
    }
}

/// A frame that a node blends lies between two consecutive keys: the
/// blend runs from key `i` to key `i + 1` (their payloads `elem` bytes
/// apart), keyed at `t_from <= frame < t_to`, at that frame.
pub proof fn lemma_blend_between_consecutive_keys(
    b: Seq<u8>,
    ts: int,
    tts: int,
    pts: int,
    elem: int,
    pack: (u32, u32),
    f: int,
)
    ensures
        node_sample(b, ts, tts, pts, elem, pack, f) matches FrameSample::Blend { from, to, t_from, t_to, frame }
            ==> exists|i: int|
            #![trigger key_time(b, ts, node_time_start(ts, tts, pack), i)]
            {
                &&& 0 <= i
                &&& i + 1 < pack.1
                &&& from == (node_payload_start(pts, elem, pack) + i * elem) as usize
                &&& to == (node_payload_start(pts, elem, pack) + (i + 1) * elem) as usize
                &&& t_from == key_time(b, ts, node_time_start(ts, tts, pack), i)
                &&& t_to == key_time(b, ts, node_time_start(ts, tts, pack), i + 1)
                &&& t_from <= f < t_to
                &&& frame == f as u32
            },
{
    let count = pack.1 as int;
    let t0 = node_time_start(ts, tts, pack);
    if count >= 2 && f > key_time(b, ts, t0, 0) {
        lemma_run_to_bounds(b, ts, t0, count, f, 0);
        let l = run_to(b, ts, t0, count, f, 0);
        assert(l >= 1) by {
            reveal_with_fuel(run_to, 2);
        }
        let br = l - 1;
        assert(bracket(b, ts, t0, count, f) == br);
        if br < count - 1 {
            assert(key_time(b, ts, t0, br) <= f);
            assert(key_time(b, ts, t0, br + 1) > f);
        }
    }
}

/// A node with a single key holds it at every frame.
pub proof fn lemma_single_key_holds(b: Seq<u8>, ts: int, tts: int, pts: int, elem: int, pack: (u32, u32), f: int)
    requires
        pack.1 == 1,
    ensures
        node_sample(b, ts, tts, pts, elem, pack, f) == FrameSample::Key(node_payload_start(pts, elem, pack) as usize),
{
}

fn read_key_time(blob: &[u8], ts: usize, start: usize, i: usize) -> (r: u32)
    requires
        ts == 1 || ts == 2,
        start + (i + 1) * ts <= blob@.len(),
    ensures
        r == key_time(blob@, ts as int, start as int, i as int),
{
    let n = blob.len();
    if ts == 1 {
        blob[start + i] as u32
    } else {
        read_u16_le(blob, start + 2 * i) as u32
    }
}

/// The frame samples of one node over `frames` frames.
fn plan_node(blob: &[u8], ts: usize, tts: usize, pts: usize, elem: usize, pack: (u32, u32), frames: u16) -> (r: Vec<
    FrameSample,
>)
    requires
        ts == 1 || ts == 2,
        1 <= elem <= 12,
        tts <= u32::MAX,
        pts <= u32::MAX,
        pack.0 < 0x10_0000,
        pack.1 < 0x1000,
        node_fits(blob@.len() as int, ts as int, tts as int, pts as int, elem as int, pack),
    ensures
        r@.len() == frames,
        forall|f: int| 0 <= f < frames ==> r@[f] == node_sample(blob@, ts as int, tts as int, pts as int, elem as int, pack, f),
{
    let n = blob.len();
    let count = pack.1 as usize;
    let mut out: Vec<FrameSample> = Vec::new();
    if count == 0 {
        let mut f: u16 = 0;
        while f < frames
            invariant
                f <= frames,
                out@.len() == f,
                pack.1 == 0,
                forall|g: int| 0 <= g < f ==> out@[g] == FrameSample::Identity,
            decreases frames - f,
        {
            out.push(FrameSample::Identity);
            f = f + 1;
        }
        return out;
    }
    let t0_wide = tts as u64 + (pack.0 as u64) * (ts as u64);
    let p0_wide = pts as u64 + (pack.0 as u64) * (elem as u64);
    assert(t0_wide + count * ts <= n && p0_wide + count * elem <= n);
    let t0 = t0_wide as usize;
    let p0 = p0_wide as usize;
    let mut f: u16 = 0;
    while f < frames
        invariant
            f <= frames,
            out@.len() == f,
            ts == 1 || ts == 2,
            1 <= elem <= 12,
            count == pack.1,
            1 <= count < 0x1000,
            n == blob@.len(),
            t0 + count * ts <= n,
            p0 + count * elem <= n,
            t0 == node_time_start(ts as int, tts as int, pack),
            p0 == node_payload_start(pts as int, elem as int, pack),
            node_fits(blob@.len() as int, ts as int, tts as int, pts as int, elem as int, pack),
            forall|g: int| 0 <= g < f ==> out@[g] == node_sample(blob@, ts as int, tts as int, pts as int, elem as int, pack, g),
        decreases frames - f,
    {
        let sample = if count == 0 {
            FrameSample::Identity
        } else if count == 1 {
            FrameSample::Key(p0)
        } else if (f as u32) <= read_key_time(blob, ts, t0, 0) {
            FrameSample::Key(p0)
        } else {
            let mut br: usize = 0;
            let mut i: usize = 0;
            while i < count
                invariant_except_break
                    i <= count,
                    run_to(blob@, ts as int, t0 as int, count as int, f as int, 0) == run_to(
                        blob@,
                        ts as int,
                        t0 as int,
                        count as int,
                        f as int,
                        i as int,
                    ),
                    br == if i == 0 {
                        0
                    } else {
                        i - 1
                    },
                invariant
                    ts == 1 || ts == 2,
                    2 <= count < 0x1000,
                    t0 + count * ts <= blob@.len(),
                ensures
                    br == bracket(blob@, ts as int, t0 as int, count as int, f as int),
                    br < count,
                decreases count - i,
            {
                assert(t0 + (i + 1) * ts <= blob@.len()) by (nonlinear_arith)
                    requires
                        i < count,
                        t0 + count * ts <= blob@.len(),
                        ts >= 1,
                ;
                if read_key_time(blob, ts, t0, i) <= f as u32 {
                    br = i;
                } else {
                    break;
                }
                i = i + 1;
            }
            assert(p0 + (br + 1) * elem <= n && br * elem <= p0 + br * elem <= n) by (nonlinear_arith)
                requires
                    br < count,
                    p0 + count * elem <= n,
                    elem >= 1,
            ;
            if br == count - 1 {
                FrameSample::Key(p0 + br * elem)
            } else {
                assert(p0 + (br + 2) * elem <= n) by (nonlinear_arith)
                    requires
                        br + 1 < count,
                        p0 + count * elem <= n,
                        elem >= 1,
                ;
                assert(t0 + (br + 2) * ts <= blob@.len()) by (nonlinear_arith)
                    requires
                        br + 1 < count,
                        t0 + count * ts <= blob@.len(),
                        ts >= 1,
                ;
                FrameSample::Blend {
                    from: p0 + br * elem,
                    to: p0 + (br + 1) * elem,
                    t_from: read_key_time(blob, ts, t0, br),
                    t_to: read_key_time(blob, ts, t0, br + 1),
                    frame: f as u32,
                }
            }
        };
        out.push(sample);
        f = f + 1;
    }
    out
}

/// The component plan `v` gives, for each packed node entry of `packs`,
/// its sample at each of `frames` frames.
pub open spec fn planned(
    v: Seq<Vec<FrameSample>>,
    b: Seq<u8>,
    ts: int,
    tts: int,
    pts: int,
    elem: int,
    packs: Seq<(u32, u32)>,
    frames: nat,
) -> bool {
    &&& v.len() == packs.len()
    &&& forall|k: int|
        0 <= k < packs.len() ==> (#[trigger] v[k])@ == Seq::new(
            frames,
            |f: int| node_sample(b, ts, tts, pts, elem, packs[k], f),
        )
}

/// What planning a component gives: its samples, or the error for its
/// first node whose keys run past the stream.
pub open spec fn component_outcome(
    r: Result<Vec<Vec<FrameSample>>, AnimationError>,
    b: Seq<u8>,
    codec: Codec,
    ts: int,
    tts: int,
    pts: int,
    elem: int,
    packs: Seq<(u32, u32)>,
    frames: nat,
) -> bool {
    match first_unfit(b.len() as int, ts, tts, pts, elem, packs, 0) {
        None => r matches Ok(v) && planned(v@, b, ts, tts, pts, elem, packs, frames),
        Some(k) => r == Err::<Vec<Vec<FrameSample>>, AnimationError>(
            AnimationError::TruncatedPayload {
                codec,
                want_end: node_end(ts, tts, pts, elem, packs[k]) as usize,
                blob_size: b.len() as usize,
            },
        ),
    }
}

fn plan_component(
    blob: &[u8],
    codec: Codec,
    frames: u16,
    ts: usize,
    tts: usize,
    pts: usize,
    elem: usize,
    packs: &Vec<(u32, u32)>,
) -> (r: Result<Vec<Vec<FrameSample>>, AnimationError>)
    requires
        ts == 1 || ts == 2,
        1 <= elem <= 12,
        tts <= u32::MAX,
        pts <= u32::MAX,
        forall|k: int| 0 <= k < packs@.len() ==> (#[trigger] packs@[k]).0 < 0x10_0000 && packs@[k].1 < 0x1000,
    ensures
        component_outcome(r, blob@, codec, ts as int, tts as int, pts as int, elem as int, packs@, frames as nat),
{
    let n = blob.len();
    let mut out: Vec<Vec<FrameSample>> = Vec::new();
    let mut k: usize = 0;
    while k < packs.len()
        invariant
            k <= packs@.len(),
            n == blob@.len(),
            ts == 1 || ts == 2,
            1 <= elem <= 12,
            tts <= u32::MAX,
            pts <= u32::MAX,
            forall|j: int| 0 <= j < packs@.len() ==> (#[trigger] packs@[j]).0 < 0x10_0000 && packs@[j].1 < 0x1000,
            first_unfit(n as int, ts as int, tts as int, pts as int, elem as int, packs@, 0) == first_unfit(
                n as int,
                ts as int,
                tts as int,
                pts as int,
                elem as int,
                packs@,
                k as int,
            ),
            planned(out@, blob@, ts as int, tts as int, pts as int, elem as int, packs@.take(k as int), frames as nat),
        decreases packs@.len() - k,
    {
        let pack = packs[k];
        assert((pack.0 as u64) * (elem as u64) <= 0x10_0000 * 12 && (pack.1 as u64) * (elem as u64) <= 0x1000 * 12
            && (pack.0 as u64) * (ts as u64) <= 0x10_0000 * 2 && (pack.1 as u64) * (ts as u64) <= 0x1000 * 2)
            by (nonlinear_arith)
            requires
                pack.0 < 0x10_0000,
                pack.1 < 0x1000,
                elem <= 12,
                ts <= 2,
        ;
        let t0 = tts as u64 + (pack.0 as u64) * (ts as u64);
        let p0 = pts as u64 + (pack.0 as u64) * (elem as u64);
        let time_end = t0 + (pack.1 as u64) * (ts as u64);
        let payload_end = p0 + (pack.1 as u64) * (elem as u64);
        let end = if time_end >= payload_end {
            time_end
        } else {
            payload_end
        };
        if pack.1 != 0 && end > n as u64 {
            return Err(AnimationError::TruncatedPayload { codec, want_end: end as usize, blob_size: n });
        }
        let samples = plan_node(blob, ts, tts, pts, elem, pack, frames);
        proof {
            assert(samples@ =~= Seq::new(
                frames as nat,
                |f: int| node_sample(blob@, ts as int, tts as int, pts as int, elem as int, pack, f),
            ));
        }
        out.push(samples);
        proof {
            assert(packs@.take(k + 1).take(k as int) =~= packs@.take(k as int));
            assert forall|j: int| 0 <= j < k + 1 implies (#[trigger] out@[j])@ == Seq::new(
                frames as nat,
                |f: int| node_sample(blob@, ts as int, tts as int, pts as int, elem as int, packs@.take(k + 1)[j], f),
            ) by {
                if j < k {
                    assert(packs@.take(k + 1)[j] == packs@.take(k as int)[j]);
                }
            }
        }
        k = k + 1;
    }
    assert(packs@.take(k as int) =~= packs@);
    Ok(out)
}

/// Packed node entry `idx` of a keyframe stream: (first key index, key
/// count), the high 20 and low 12 bits of its word.
pub open spec fn pack_of(b: Seq<u8>, idx: int) -> (u32, u32) {
    let pd = le_u32(b, 48 + 4 * idx);
    ((pd / 4096) as u32, (pd % 4096) as u32)
}

/// Packed entries `from .. from + n`.
pub open spec fn packs_of(b: Seq<u8>, from: int, n: int) -> Seq<(u32, u32)> {
    Seq::new(n as nat, |k: int| pack_of(b, from + k))
}

fn read_packs(blob: &[u8], from: usize, n: usize) -> (r: Vec<(u32, u32)>)
    requires
        48 + 4 * (from + n) <= blob@.len(),
    ensures
        r@ == packs_of(blob@, from as int, n as int),
        forall|k: int| 0 <= k < r@.len() ==> (#[trigger] r@[k]).0 < 0x10_0000 && r@[k].1 < 0x1000,
{
    let len = blob.len();
    let mut out: Vec<(u32, u32)> = Vec::new();
    let mut k: usize = 0;
    while k < n
        invariant
            k <= n,
            len == blob@.len(),
            48 + 4 * (from + n) <= blob@.len(),
            out@ == packs_of(blob@, from as int, n as int).take(k as int),
            forall|j: int| 0 <= j < out@.len() ==> (#[trigger] out@[j]).0 < 0x10_0000 && out@[j].1 < 0x1000,
        decreases n - k,
    {
        let pd = read_u32_le(blob, 48 + 4 * (from + k));
        out.push((pd / 4096, pd % 4096));
        proof {
            assert(packs_of(blob@, from as int, n as int).take(k + 1) =~= packs_of(blob@, from as int, n as int).take(
                k as int,
            ).push(pack_of(blob@, from + k)));
        }
        k = k + 1;
    }
    assert(packs_of(blob@, from as int, n as int).take(n as int) =~= packs_of(blob@, from as int, n as int));
    out
}

/// Where each node's value comes from at each frame, for the three
/// components of a codec stream: rotations, translations and scales,
/// each indexed by the codec's node, then by frame.
#[derive(Debug)]
pub struct TrackPlan {
    pub codec: Codec,
    pub frame_count: u16,
    pub rotations: Vec<Vec<FrameSample>>,
    pub translations: Vec<Vec<FrameSample>>,
    pub scales: Vec<Vec<FrameSample>>,
}

/// The keyframe plan `p` of stream `b` with header `h`: each component
/// planned from its packed entries, time table and payload table.
pub open spec fn keyframe_planned(p: TrackPlan, b: Seq<u8>, h: KeyframeCodecHeader, ts: int, frames: nat) -> bool {
    let n_rot = h.base.total_rotated_nodes as int;
    let n_trans = h.base.total_translated_nodes as int;
    let n_scale = h.base.total_scaled_nodes as int;
    &&& planned(
        p.rotations@,
        b,
        ts,
        h.rotation_key_time_offset as int,
        h.rotation_key_payload_offset as int,
        8,
        packs_of(b, 0, n_rot),
        frames,
    )
    &&& planned(
        p.translations@,
        b,
        ts,
        h.translation_key_time_offset as int,
        h.translation_key_payload_offset as int,
        12,
        packs_of(b, n_rot, n_trans),
        frames,
    )
    &&& planned(
        p.scales@,
        b,
        ts,
        h.scale_key_time_offset as int,
        h.scale_key_payload_offset as int,
        4,
        packs_of(b, n_rot + n_trans, n_scale),
        frames,
    )
}

/// The first node, in component order (rotations, translations,
/// scales), whose keys run past the stream: its key extent.
pub open spec fn keyframe_overrun(b: Seq<u8>, h: KeyframeCodecHeader, ts: int) -> Option<int> {
    let n_rot = h.base.total_rotated_nodes as int;
    let n_trans = h.base.total_translated_nodes as int;
    let n_scale = h.base.total_scaled_nodes as int;
    let len = b.len() as int;
    let rp = packs_of(b, 0, n_rot);
    let tp = packs_of(b, n_rot, n_trans);
    let sp = packs_of(b, n_rot + n_trans, n_scale);
    let (rt, rpay) = (h.rotation_key_time_offset as int, h.rotation_key_payload_offset as int);
    let (tt, tpay) = (h.translation_key_time_offset as int, h.translation_key_payload_offset as int);
    let (st, spay) = (h.scale_key_time_offset as int, h.scale_key_payload_offset as int);
    match first_unfit(len, ts, rt, rpay, 8, rp, 0) {
        Some(k) => Some(node_end(ts, rt, rpay, 8, rp[k])),
        None => match first_unfit(len, ts, tt, tpay, 12, tp, 0) {
            Some(k) => Some(node_end(ts, tt, tpay, 12, tp[k])),
            None => match first_unfit(len, ts, st, spay, 4, sp, 0) {
                Some(k) => Some(node_end(ts, st, spay, 4, sp[k])),
                None => None,
            },
        },
    }
}

/// The error planning keyframe stream `b` of codec `codec` gives, if
/// any: a stream shorter than its 48-byte header, packed entries past
/// the stream, or the first node whose keys run past it.
pub open spec fn keyframe_error(b: Seq<u8>, codec: Codec, ts: int) -> Option<AnimationError> {
    if b.len() < 48 {
        Some(AnimationError::TruncatedHeader { codec, want: 48, have: b.len() as usize })
    } else {
        let h = keyframe_header_of(b);
        let total = h.base.total_rotated_nodes + h.base.total_translated_nodes + h.base.total_scaled_nodes;
        if 48 + 4 * total > b.len() {
            Some(
                AnimationError::TruncatedPayload { codec, want_end: (48 + 4 * total) as usize, blob_size: b.len() as usize },
            )
        } else {
            match keyframe_overrun(b, h, ts) {
                Some(e) => Some(AnimationError::TruncatedPayload { codec, want_end: e as usize, blob_size: b.len() as usize }),
                None => None,
            }
        }
    }
}

/// The forward and reverse keyframe codecs of one key-time width lay
/// their bytes out alike: a stream plans without error under one exactly
/// when it does under the other.
pub proof fn lemma_keyframe_variants_agree(b: Seq<u8>, c1: Codec, c2: Codec, ts: int)
    requires
        is_keyframe(c1),
        is_keyframe(c2),
    ensures
        keyframe_error(b, c1, ts) is None <==> keyframe_error(b, c2, ts) is None,
{
}

/// Plan a keyframe stream (slots 4 to 7) with `time_size`-byte key times
/// over `frame_count` frames. A node without keys holds the identity; a
/// node with one key holds it; otherwise each frame takes the last key
/// of the leading run of keys timed at or before it, blended with the
/// next key unless it is the last. Errors: a stream shorter than its
/// 48-byte header, packed entries past the stream, or the first node
/// whose keys run past it.
pub fn plan_keyframe(blob: &[u8], codec: Codec, frame_count: u16, time_size: usize) -> (r: Result<
    TrackPlan,
    AnimationError,
>)
    requires
        time_size == 1 || time_size == 2,
    ensures
        match keyframe_error(blob@, codec, time_size as int) {
            Some(e) => r == Err::<TrackPlan, AnimationError>(e),
            None => r matches Ok(p) && p.codec == codec && p.frame_count == frame_count && keyframe_planned(
                p,
                blob@,
                keyframe_header_of(blob@),
                time_size as int,
                frame_count as nat,
            ),
        },
{
    let n = blob.len();
    let h = match KeyframeCodecHeader::from_bytes(blob) {
        Some(h) => h,
        None => {
            return Err(AnimationError::TruncatedHeader { codec, want: 48, have: n });
        },
    };
    let n_rot = h.base.total_rotated_nodes as usize;
    let n_trans = h.base.total_translated_nodes as usize;
    let n_scale = h.base.total_scaled_nodes as usize;
    let total = n_rot + n_trans + n_scale;
    let packed_end = 48 + 4 * total;
    if packed_end > n {
        return Err(AnimationError::TruncatedPayload { codec, want_end: packed_end, blob_size: n });
    }
    let rp = read_packs(blob, 0, n_rot);
    let tp = read_packs(blob, n_rot, n_trans);
    let sp = read_packs(blob, n_rot + n_trans, n_scale);
    let rotations = plan_component(
        blob,
        codec,
        frame_count,
        time_size,
        h.rotation_key_time_offset as usize,
        h.rotation_key_payload_offset as usize,
        8,
        &rp,
    )?;
    let translations = plan_component(
        blob,
        codec,
        frame_count,
        time_size,
        h.translation_key_time_offset as usize,
        h.translation_key_payload_offset as usize,
        12,
        &tp,
    )?;
    let scales = plan_component(
        blob,
        codec,
        frame_count,
        time_size,
        h.scale_key_time_offset as usize,
        h.scale_key_payload_offset as usize,
        4,
        &sp,
    )?;
    Ok(TrackPlan { codec, frame_count, rotations, translations, scales })
}

//================================================================================
// Full-frame sampling plan
//================================================================================

/// The component plan `v` holds `n` nodes whose value at frame `f` is
/// stored at `start + node * stride + f * step`.
pub open spec fn strided(v: Seq<Vec<FrameSample>>, start: int, stride: int, n: int, step: int, frames: nat) -> bool {
    &&& v.len() == n
    &&& forall|k: int|
        0 <= k < n ==> (#[trigger] v[k])@ == Seq::new(
            frames,
            |f: int| FrameSample::Key((start + k * stride + f * step) as usize),
        )
}

fn plan_strided(start: u64, stride: u64, n: u64, step: u64, frames: u16) -> (r: Vec<Vec<FrameSample>>)
    requires
        start <= u32::MAX,
        stride <= u32::MAX,
        n <= 255,
        step <= 16,
    ensures
        strided(r@, start as int, stride as int, n as int, step as int, frames as nat),
{
    let mut out: Vec<Vec<FrameSample>> = Vec::new();
    let mut k: u64 = 0;
    while k < n
        invariant
            k <= n <= 255,
            start <= u32::MAX,
            stride <= u32::MAX,
            step <= 16,
            out@.len() == k,
            forall|j: int|
                0 <= j < k ==> (#[trigger] out@[j])@ == Seq::new(
                    frames as nat,
                    |f: int| FrameSample::Key((start + j * stride + f * step) as usize),
                ),
        decreases n - k,
    {
        assert(k * stride <= 255 * 0xffff_ffff) by (nonlinear_arith)
            requires
                k <= 255,
                stride <= 0xffff_ffff,
        ;
        let base = start + k * stride;
        let mut row: Vec<FrameSample> = Vec::new();
        let mut f: u16 = 0;
        while f < frames
            invariant
                f <= frames,
                step <= 16,
                base == start + k * stride,
                base <= 256 * 0xffff_ffff,
                row@.len() == f,
                forall|g: int| 0 <= g < f ==> row@[g] == FrameSample::Key((start + k * stride + g * step) as usize),
            decreases frames - f,
        {
            assert((f as u64) * step <= 0xffff * 16) by (nonlinear_arith)
                requires
                    f <= 0xffff,
                    step <= 16,
            ;
            let off = base + (f as u64) * step;
            row.push(FrameSample::Key(off as usize));
            f = f + 1;
        }
        assert(row@ =~= Seq::new(
            frames as nat,
            |g: int| FrameSample::Key((start + k * stride + g * step) as usize),
        ));
        out.push(row);
        k = k + 1;
    }
    out
}

/// The error planning full-frame stream `b` of codec `codec` gives, if
/// any: a stream shorter than its 32-byte header, or the first of the
/// rotation, translation and scale blocks ending past the stream.
pub open spec fn fullframe_error(b: Seq<u8>, codec: Codec) -> Option<AnimationError> {
    if b.len() < 32 {
        Some(AnimationError::TruncatedHeader { codec, want: 32, have: b.len() as usize })
    } else {
        let h = fullframe_header_of(b);
        let len = b.len() as int;
        let rot_end = 32 + h.base.total_rotated_nodes * h.rotation_stride;
        let trans_end = h.base.translation_offset + h.base.total_translated_nodes * h.translation_stride;
        let scale_end = h.base.scale_offset + h.base.total_scaled_nodes * h.scale_stride;
        if rot_end > len {
            Some(AnimationError::TruncatedPayload { codec, want_end: rot_end as usize, blob_size: len as usize })
        } else if trans_end > len {
            Some(AnimationError::TruncatedPayload { codec, want_end: trans_end as usize, blob_size: len as usize })
        } else if scale_end > len {
            Some(AnimationError::TruncatedPayload { codec, want_end: scale_end as usize, blob_size: len as usize })
        } else {
            None
        }
    }
}

/// The full-frame plan `p` of a stream with header `h`: node `k`'s
/// values at frame `f` at the strided positions of each component.
pub open spec fn fullframe_planned(p: TrackPlan, h: FullframeCodecHeader, quat_8byte: bool, frames: nat) -> bool {
    &&& strided(
        p.rotations@,
        32,
        h.rotation_stride as int,
        h.base.total_rotated_nodes as int,
        if quat_8byte {
            8
        } else {
            16
        },
        frames,
    )
    &&& strided(
        p.translations@,
        h.base.translation_offset as int,
        h.translation_stride as int,
        h.base.total_translated_nodes as int,
        12,
        frames,
    )
    &&& strided(p.scales@, h.base.scale_offset as int, h.scale_stride as int, h.base.total_scaled_nodes as int, 4, frames)
}

/// Plan a full-frame stream (slots 1, 2, 3 and 8) over `frame_count`
/// frames, with 8-byte (`quat_8byte`) or 16-byte rotations: node `k`'s
/// rotation at frame `f` lies at `32 + k * rotation_stride + f * size`,
/// its translation at `translation_offset + k * translation_stride + 12f`
/// and its scale at `scale_offset + k * scale_stride + 4f`. Errors: a
/// stream shorter than its 32-byte header, or a rotation, translation or
/// scale block (checked in that order) ending past the stream.
pub fn plan_fullframe(blob: &[u8], codec: Codec, frame_count: u16, quat_8byte: bool) -> (r: Result<
    TrackPlan,
    AnimationError,
>)
    ensures
        match fullframe_error(blob@, codec) {
            Some(e) => r == Err::<TrackPlan, AnimationError>(e),
            None => r matches Ok(p) && p.codec == codec && p.frame_count == frame_count && fullframe_planned(
                p,
                fullframe_header_of(blob@),
                quat_8byte,
                frame_count as nat,
            ),
        },
{
    let n = blob.len();
    let h = match FullframeCodecHeader::from_bytes(blob) {
        Some(h) => h,
        None => {
            return Err(AnimationError::TruncatedHeader { codec, want: 32, have: n });
        },
    };
    let n_rot = h.base.total_rotated_nodes as u64;
    let n_trans = h.base.total_translated_nodes as u64;
    let n_scale = h.base.total_scaled_nodes as u64;
    assert(n_rot * (h.rotation_stride as u64) <= 255 * 0xffff_ffff && n_trans * (h.translation_stride as u64) <= 255
        * 0xffff_ffff && n_scale * (h.scale_stride as u64) <= 255 * 0xffff_ffff) by (nonlinear_arith)
        requires
            n_rot <= 255,
            n_trans <= 255,
            n_scale <= 255,
            h.rotation_stride <= 0xffff_ffff,
            h.translation_stride <= 0xffff_ffff,
            h.scale_stride <= 0xffff_ffff,
    ;
    let rot_end = 32 + n_rot * (h.rotation_stride as u64);
    if rot_end > n as u64 {
        return Err(AnimationError::TruncatedPayload { codec, want_end: rot_end as usize, blob_size: n });
    }
    let trans_end = h.base.translation_offset as u64 + n_trans * (h.translation_stride as u64);
    if trans_end > n as u64 {
        return Err(AnimationError::TruncatedPayload { codec, want_end: trans_end as usize, blob_size: n });
    }
    let scale_end = h.base.scale_offset as u64 + n_scale * (h.scale_stride as u64);
    if scale_end > n as u64 {
        return Err(AnimationError::TruncatedPayload { codec, want_end: scale_end as usize, blob_size: n });
    }
    let qs: u64 = if quat_8byte {
        8
    } else {
        16
    };
    let rotations = plan_strided(32, h.rotation_stride as u64, n_rot, qs, frame_count);
    let translations = plan_strided(
        h.base.translation_offset as u64,
        h.translation_stride as u64,
        n_trans,
        12,
        frame_count,
    );
    let scales = plan_strided(h.base.scale_offset as u64, h.scale_stride as u64, n_scale, 4, frame_count);
    Ok(TrackPlan { codec, frame_count, rotations, translations, scales })
}

//================================================================================
// Decoding plan of an animation
//================================================================================

/// How the animated stream of an animation is to be decoded.
#[derive(Debug)]
pub enum AnimatedStream {
    /// The animation has no animated stream.
    Absent,
    /// Its codec byte is no known codec.
    Unknown(u8),
    /// A codec without a decoder, or a stream that its codec's layout
    /// does not fit.
    Unsupported(Codec),
    /// A full-frame or keyframe stream, planned (offsets relative to the
    /// animated stream's start).
    Planned(TrackPlan),
    /// A curve stream (slot 9, or slot 10 when `revised`): its values are
    /// read with floating-point arithmetic by the caller.
    Curve { codec: Codec, revised: bool },
}

impl AnimatedStream {
    /// The decode status this plan stands for; a curve stream counts as
    /// decoded.
    pub fn status(&self) -> (r: AnimatedStreamStatus)
        ensures
            r == match *self {
                AnimatedStream::Absent => AnimatedStreamStatus::NoAnimatedStream,
                AnimatedStream::Unknown(b) => AnimatedStreamStatus::Unknown(b),
                AnimatedStream::Unsupported(c) => AnimatedStreamStatus::Unsupported(c),
                _ => AnimatedStreamStatus::Decoded,
            },
    {
        match self {
            AnimatedStream::Absent => AnimatedStreamStatus::NoAnimatedStream,
            AnimatedStream::Unknown(b) => AnimatedStreamStatus::Unknown(*b),
            AnimatedStream::Unsupported(c) => AnimatedStreamStatus::Unsupported(*c),
            _ => AnimatedStreamStatus::Decoded,
        }
    }
}

/// Where the per-frame root movement lies: its kind and the offset of
/// each frame's record in the blob. `NoMovement` with no frames when the
/// animation has none or its table does not fit.
#[derive(Debug)]
pub struct MovementPlan {
    pub kind: MovementKind,
    pub frame_offsets: Vec<usize>,
}

/// The integer decisions of decoding an animation: its frame count, the
/// plan of its static (rest-pose) stream (`None`: no static stream), the
/// byte range and plan of its animated stream, its node-flag tables and
/// where its root movement lies.
#[derive(Debug)]
pub struct DecodePlan {
    pub frame_count: u16,
    pub static_tracks: Option<TrackPlan>,
    pub animated_start: usize,
    pub animated_end: usize,
    pub animated: AnimatedStream,
    pub node_flags: Option<NodeFlags>,
    pub movement: MovementPlan,
}

/// `a + b` on `usize`, wrapping past `usize::MAX`.
pub open spec fn wrap_add(a: int, b: int) -> int {
    if a + b > usize::MAX {
        a + b - (usize::MAX + 1)
    } else {
        a + b
    }
}

/// The size entries of an animation (none without a table).
pub open spec fn sizes_of(g: AnimationGroup) -> Seq<(String, i64)> {
    match g.data_sizes {
        Some(d) => d.fields@,
        None => Seq::empty(),
    }
}

/// Whether the animation's size table is Reach's.
pub open spec fn reach_sizes(g: AnimationGroup) -> bool {
    match g.data_sizes {
        Some(d) => exists|k: int| 0 <= k < d.fields@.len() && is_reach_only_name(#[trigger] d.fields@[k].0@),
        None => false,
    }
}

/// Size entry `k` as a byte count (`usize`), or 0 when absent.
pub open spec fn size_at(g: AnimationGroup, k: int) -> int {
    if 0 <= k < sizes_of(g).len() {
        sizes_of(g)[k].1 as usize as int
    } else {
        0
    }
}

/// The size named `name` as a byte count (`usize`).
pub open spec fn named_size(g: AnimationGroup, name: Seq<char>) -> int {
    size_named(sizes_of(g), name) as usize as int
}

/// The frame count the codec streams are decoded over: the member's
/// codec frame count (else the animation's), at least 1.
pub open spec fn decode_frame_count(g: AnimationGroup) -> u16 {
    let f: i16 = match g.codec_frame_count {
        Some(c) => c,
        None => g.frame_count,
    };
    (if f < 1 {
        1
    } else {
        f
    }) as u16
}

/// Whether the blob opens with a static stream: codec slot 1 and a
/// non-zero first size.
pub open spec fn has_static_stream(g: AnimationGroup, c: Codec) -> bool {
    c is UncompressedStatic && size_at(g, 0) > 0
}

/// Byte size of the static stream (where the animated stream starts).
pub open spec fn static_stream_size(g: AnimationGroup, c: Codec) -> int {
    if !has_static_stream(g, c) {
        0
    } else if reach_sizes(g) {
        size_at(g, 0)
    } else {
        named_size(g, "default_data"@)
    }
}

/// Declared length of the animated stream: Reach's second size, else the
/// rest of the blob.
pub open spec fn animated_length(g: AnimationGroup, c: Codec) -> int {
    if reach_sizes(g) {
        size_at(g, 1)
    } else {
        max_int(g.blob@.len() - static_stream_size(g, c), 0)
    }
}

/// Whether an animated stream is present.
pub open spec fn animated_present(g: AnimationGroup, c: Codec) -> bool {
    static_stream_size(g, c) < g.blob@.len() && animated_length(g, c) > 0
}

/// End of the animated stream, cut to the blob.
pub open spec fn animated_stream_end(g: AnimationGroup, c: Codec) -> int {
    let e = static_stream_size(g, c) + animated_length(g, c);
    if e > g.blob@.len() {
        g.blob@.len() as int
    } else {
        e
    }
}

/// The animated stream `a` is the plan of the stream bytes `b` over
/// `frames` frames: by its first byte's codec, a planned full-frame or
/// keyframe stream (unsupported when its layout does not fit), a curve
/// stream, or a codec without decoder.
pub open spec fn animated_planned(a: AnimatedStream, b: Seq<u8>, frames: u16) -> bool {
    match codec_of(b[0]) {
        None => a == AnimatedStream::Unknown(b[0]),
        Some(c) => if c is EightByteQuantizedRotationOnly || c is UncompressedAnimated || c is BlendScreen {
            match fullframe_error(b, c) {
                Some(_) => a == AnimatedStream::Unsupported(c),
                None => a matches AnimatedStream::Planned(p) && p.codec == c && p.frame_count == frames
                    && fullframe_planned(p, fullframe_header_of(b), c is EightByteQuantizedRotationOnly, frames as nat),
            }
        } else if is_keyframe(c) {
            match keyframe_error(b, c, key_time_size(c)) {
                Some(_) => a == AnimatedStream::Unsupported(c),
                None => a matches AnimatedStream::Planned(p) && p.codec == c && p.frame_count == frames
                    && keyframe_planned(p, b, keyframe_header_of(b), key_time_size(c), frames as nat),
            }
        } else if c is Curve {
            a == AnimatedStream::Curve { codec: c, revised: false }
        } else if c is RevisedCurve {
            a == AnimatedStream::Curve { codec: c, revised: true }
        } else {
            a == AnimatedStream::Unsupported(c)
        },
    }
}

/// Byte size of the animated stream for locating the flag tables: Reach
/// records it; for H3 it is the planned stream's extent.
pub open spec fn animated_size(g: AnimationGroup, c: Codec, a: AnimatedStream) -> Option<int> {
    if !animated_present(g, c) {
        None
    } else if reach_sizes(g) {
        if sizes_of(g).len() > 1 {
            Some(size_at(g, 1))
        } else {
            None
        }
    } else if a is Planned {
        let b = g.blob@.subrange(static_stream_size(g, c), animated_stream_end(g, c));
        match codec_of(b[0]) {
            Some(ac) => match stream_extent(b, ac) {
                Some(e) => if e <= usize::MAX {
                    Some(e)
                } else {
                    None
                },
                None => None,
            },
            None => None,
        }
    } else {
        None
    }
}

/// Where the flag tables are read: (offset, static triplet bytes,
/// animated triplet bytes). Reach: after its first two sections; H3:
/// after the animated stream, sized by the named entries. Offsets wrap
/// as `usize` sums do.
pub open spec fn node_flags_window(g: AnimationGroup, c: Codec, a: AnimatedStream) -> Option<(int, int, int)> {
    if g.data_sizes is None {
        None
    } else if reach_sizes(g) {
        Some((wrap_add(size_at(g, 0), size_at(g, 1)), size_at(g, 2), size_at(g, 3)))
    } else {
        match animated_size(g, c, a) {
            Some(sz) => Some(
                (
                    wrap_add(static_stream_size(g, c), sz),
                    named_size(g, "static_node_flags"@),
                    named_size(g, "animated_node_flags"@),
                ),
            ),
            None => None,
        }
    }
}

/// The movement kind a `frame_info_type_enum` option name denotes.
pub open spec fn schema_movement_kind(n: Seq<char>) -> MovementKind {
    if n == "dx,dy"@ {
        MovementKind::DxDy
    } else if n == "dx,dy,dyaw"@ {
        MovementKind::DxDyDyaw
    } else if n == "dx,dy,dz,dyaw"@ {
        MovementKind::DxDyDzDyaw
    } else if n == "dx,dy,dz,dangle_axis"@ {
        MovementKind::DxDyDzDangleAxis
    } else {
        MovementKind::NoMovement
    }
}

/// The movement kind of an animation: from the member's movement type,
/// else the animation's frame info type.
pub open spec fn group_movement_kind(g: AnimationGroup) -> MovementKind {
    match g.movement_type {
        Some(m) => schema_movement_kind(m@),
        None => match g.frame_info_type {
            Some(f) => schema_movement_kind(f@),
            None => MovementKind::NoMovement,
        },
    }
}

/// Bytes per frame of a movement kind.
pub open spec fn movement_bytes(k: MovementKind) -> int {
    match k {
        MovementKind::NoMovement => 0,
        MovementKind::DxDy => 8,
        MovementKind::DxDyDyaw => 12,
        MovementKind::DxDyDzDyaw => 16,
        MovementKind::DxDyDzDangleAxis => 24,
    }
}

/// Where the movement table lies: (offset, size). Reach: after its first
/// four sections; H3: just before the trailing pill data at the blob's
/// end.
pub open spec fn movement_window(g: AnimationGroup) -> (int, int) {
    if reach_sizes(g) {
        (wrap_add(wrap_add(wrap_add(size_at(g, 0), size_at(g, 1)), size_at(g, 2)), size_at(g, 3)), size_at(g, 4))
    } else {
        let m = named_size(g, "movement_data"@);
        let p = named_size(g, "pill_offset_data"@);
        (max_int(max_int(g.blob@.len() - p, 0) - m, 0), m)
    }
}

/// `mp` is the movement plan of an animation decoded over `frames`
/// frames: one record per frame, up to the frames the table holds, when
/// the animation has a size table, a movement kind, and a non-empty
/// table of whole records inside the blob.
pub open spec fn movement_planned(mp: MovementPlan, g: AnimationGroup, frames: int) -> bool {
    let k = group_movement_kind(g);
    let (off, size) = movement_window(g);
    let bpf = movement_bytes(k);
    if g.data_sizes is None || k is NoMovement || size == 0 || size % bpf != 0 || off + size > g.blob@.len() {
        mp.kind is NoMovement && mp.frame_offsets@.len() == 0
    } else {
        let count = if size / bpf < frames {
            size / bpf
        } else {
            frames
        };
        &&& mp.kind == k
        &&& mp.frame_offsets@ == Seq::new(count as nat, |i: int| (off + i * bpf) as usize)
    }
}

/// The error decoding an animation gives, if any: no codec payload, an
/// unknown codec byte, or a static stream its layout does not fit.
pub open spec fn decode_error(g: AnimationGroup) -> Option<AnimationError> {
    match g.codec_byte {
        None => Some(AnimationError::NoCodecPayload),
        Some(b) => match codec_of(b) {
            None => Some(AnimationError::UnknownCodec(b)),
            Some(c) => if has_static_stream(g, c) {
                fullframe_error(g.blob@, Codec::UncompressedStatic)
            } else {
                None
            },
        },
    }
}

/// `p` is the decoding plan of the animation `g` with codec `c`.
pub open spec fn decode_planned(p: DecodePlan, g: AnimationGroup, c: Codec) -> bool {
    let frames = decode_frame_count(g);
    &&& p.frame_count == frames
    &&& match p.static_tracks {
        None => !has_static_stream(g, c),
        Some(t) => has_static_stream(g, c) && t.codec == Codec::UncompressedStatic && t.frame_count == 1
            && fullframe_planned(t, fullframe_header_of(g.blob@), true, 1),
    }
    &&& if animated_present(g, c) {
        &&& p.animated_start == static_stream_size(g, c)
        &&& p.animated_end == animated_stream_end(g, c)
        &&& animated_planned(p.animated, g.blob@.subrange(p.animated_start as int, p.animated_end as int), frames)
    } else {
        p.animated is Absent
    }
    &&& match node_flags_window(g, c, p.animated) {
        Some((off, st, at)) => node_flags_hold(p.node_flags, g.blob@, off, st, at),
        None => p.node_flags is None,
    }
    &&& movement_planned(p.movement, g, frames as int)
}

fn size_entry(sizes: &Option<PackedDataSizes>, k: usize) -> (r: usize)
    ensures
        r == match *sizes {
            Some(d) => if k < d.fields@.len() {
                d.fields@[k as int].1 as usize as int
            } else {
                0
            },
            None => 0,
        },
{
    match sizes {
        Some(d) => if k < d.fields.len() {
            d.fields[k].1 as usize
        } else {
            0
        },
        None => 0,
    }
}

fn named_entry(sizes: &Option<PackedDataSizes>, name: &str) -> (r: usize)
    ensures
        r == match *sizes {
            Some(d) => size_named(d.fields@, name@) as usize as int,
            None => size_named(Seq::empty(), name@) as usize as int,
        },
{
    match sizes {
        Some(d) => d.get(name) as usize,
        None => 0,
    }
}

fn plan_movement(g: &AnimationGroup, reach: bool, frames: u16) -> (r: MovementPlan)
    requires
        reach == reach_sizes(*g),
    ensures
        movement_planned(r, *g, frames as int),
{
    let none = MovementPlan { kind: MovementKind::NoMovement, frame_offsets: Vec::new() };
    if g.data_sizes.is_none() {
        return none;
    }
    let kind = match &g.movement_type {
        Some(m) => MovementKind::from_schema_name(m.as_str()),
        None => match &g.frame_info_type {
            Some(f) => MovementKind::from_schema_name(f.as_str()),
            None => MovementKind::NoMovement,
        },
    };
    let n = g.blob.len();
    let (off, size) = if reach {
        let s0 = size_entry(&g.data_sizes, 0);
        let s1 = size_entry(&g.data_sizes, 1);
        let s2 = size_entry(&g.data_sizes, 2);
        let s3 = size_entry(&g.data_sizes, 3);
        (s0.wrapping_add(s1).wrapping_add(s2).wrapping_add(s3), size_entry(&g.data_sizes, 4))
    } else {
        let m = named_entry(&g.data_sizes, "movement_data");
        let p = named_entry(&g.data_sizes, "pill_offset_data");
        let after_pill = if n >= p {
            n - p
        } else {
            0
        };
        (if after_pill >= m {
            after_pill - m
        } else {
            0
        }, m)
    };
    assert(off == movement_window(*g).0 && size == movement_window(*g).1);
    if kind == MovementKind::NoMovement || size == 0 {
        return none;
    }
    let bpf = kind.bytes_per_frame();
    if size % bpf != 0 {
        return none;
    }
    match off.checked_add(size) {
        None => {
            return none;
        },
        Some(end) => if end > n {
            return none;
        },
    }
    let per = size / bpf;
    let count = if per < frames as usize {
        per
    } else {
        frames as usize
    };
    let mut offsets: Vec<usize> = Vec::new();
    let mut i: usize = 0;
    while i < count
        invariant
            i <= count,
            count <= size / bpf,
            8 <= bpf <= 24,
            off + size <= n,
            offsets@ == Seq::new(i as nat, |j: int| (off + j * bpf) as usize),
        decreases count - i,
    {
        assert(i * bpf <= size) by (nonlinear_arith)
            requires
                i < count,
                count <= size / bpf,
                bpf > 0,
        ;
        offsets.push(off + i * bpf);
        assert(offsets@ =~= Seq::new((i + 1) as nat, |j: int| (off + j * bpf) as usize));
        i = i + 1;
    }
    MovementPlan { kind, frame_offsets: offsets }
}

/// Plan an animated stream by its first byte's codec.
fn plan_animated(bytes: &[u8], frames: u16) -> (a: AnimatedStream)
    requires
        bytes@.len() > 0,
    ensures
        animated_planned(a, bytes@, frames),
{
    let b0 = bytes[0];
    match Codec::from_byte(b0) {
        None => AnimatedStream::Unknown(b0),
        Some(c) => match c {
            Codec::EightByteQuantizedRotationOnly => match plan_fullframe(bytes, c, frames, true) {
                Ok(p) => AnimatedStream::Planned(p),
                Err(_) => AnimatedStream::Unsupported(c),
            },
            Codec::UncompressedAnimated | Codec::BlendScreen => match plan_fullframe(bytes, c, frames, false) {
                Ok(p) => AnimatedStream::Planned(p),
                Err(_) => AnimatedStream::Unsupported(c),
            },
            Codec::ByteKeyframeLightlyQuantized | Codec::ReverseByteKeyframeLightlyQuantized => match plan_keyframe(
                bytes,
                c,
                frames,
                1,
            ) {
                Ok(p) => AnimatedStream::Planned(p),
                Err(_) => AnimatedStream::Unsupported(c),
            },
            Codec::WordKeyframeLightlyQuantized | Codec::ReverseWordKeyframeLightlyQuantized => match plan_keyframe(
                bytes,
                c,
                frames,
                2,
            ) {
                Ok(p) => AnimatedStream::Planned(p),
                Err(_) => AnimatedStream::Unsupported(c),
            },
            Codec::Curve => AnimatedStream::Curve { codec: c, revised: false },
            Codec::RevisedCurve => AnimatedStream::Curve { codec: c, revised: true },
            _ => AnimatedStream::Unsupported(c),
        },
    }
}

/// Read the node-flag tables of an animation from their window.
fn plan_node_flags(g: &AnimationGroup, reach: bool, static_size: usize, asize: Option<usize>) -> (r: Option<NodeFlags>)
    requires
        reach == reach_sizes(*g),
    ensures
        match (if g.data_sizes is None {
            None
        } else if reach {
            Some((wrap_add(size_at(*g, 0), size_at(*g, 1)), size_at(*g, 2), size_at(*g, 3)))
        } else {
            match asize {
                Some(sz) => Some(
                    (
                        wrap_add(static_size as int, sz as int),
                        named_size(*g, "static_node_flags"@),
                        named_size(*g, "animated_node_flags"@),
                    ),
                ),
                None => None,
            }
        }) {
            Some((off, st, at)) => node_flags_hold(r, g.blob@, off, st, at),
            None => r is None,
        },
{
    if g.data_sizes.is_none() {
        return None;
    }
    if reach {
        let off = size_entry(&g.data_sizes, 0).wrapping_add(size_entry(&g.data_sizes, 1));
        read_node_flags(g.blob, off, size_entry(&g.data_sizes, 2), size_entry(&g.data_sizes, 3))
    } else {
        match asize {
            None => None,
            Some(sz) => read_node_flags(
                g.blob,
                static_size.wrapping_add(sz),
                named_entry(&g.data_sizes, "static_node_flags"),
                named_entry(&g.data_sizes, "animated_node_flags"),
            ),
        }
    }
}

impl<'a> AnimationGroup<'a> {
    /// The decoding plan of the animation ([`decode_planned`]): errors for
    /// a missing codec payload, an unknown codec byte, or a static stream
    /// that its layout does not fit ([`decode_error`]). A failing
    /// animated stream does not fail the plan: it is unsupported.
    pub fn decode_plan(&self) -> (r: Result<DecodePlan, AnimationError>)
        ensures
            match decode_error(*self) {
                Some(e) => r == Err::<DecodePlan, AnimationError>(e),
                None => r matches Ok(p) && decode_planned(p, *self, codec_of(self.codec_byte->0)->0),
            },
    {
        let codec_byte = match self.codec_byte {
            Some(b) => b,
            None => {
                return Err(AnimationError::NoCodecPayload);
            },
        };
        let codec = match Codec::from_byte(codec_byte) {
            Some(c) => c,
            None => {
                return Err(AnimationError::UnknownCodec(codec_byte));
            },
        };
        let n = self.blob.len();
        let ghost g = *self;
        let static_first = size_entry(&self.data_sizes, 0);
        let has_static = codec == Codec::UncompressedStatic && static_first > 0;
        let static_tracks = if has_static {
            Some(plan_fullframe(self.blob, Codec::UncompressedStatic, 1, true)?)
        } else {
            None
        };
        let f: i16 = match self.codec_frame_count {
            Some(c) => c,
            None => self.frame_count,
        };
        let frames: u16 = if f < 1 {
            1
        } else {
            f as u16
        };
        let reach = match &self.data_sizes {
            Some(d) => d.layout() == SizeLayout::Reach,
            None => false,
        };
        assert(reach == reach_sizes(g));
        let static_size = if !has_static {
            0
        } else if reach {
            static_first
        } else {
            named_entry(&self.data_sizes, "default_data")
        };
        let animated_len = if reach {
            size_entry(&self.data_sizes, 1)
        } else if n >= static_size {
            n - static_size
        } else {
            0
        };
        let (start, end, animated, asize) = if static_size >= n || animated_len == 0 {
            (0usize, 0usize, AnimatedStream::Absent, None)
        } else {
            let end = if animated_len > n - static_size {
                n
            } else {
                static_size + animated_len
            };
            let bytes = vstd::slice::slice_subrange(self.blob, static_size, end);
            let b0 = bytes[0];
            let a = plan_animated(bytes, frames);
            let size: Option<usize> = if reach {
                match &self.data_sizes {
                    Some(d) => if d.fields.len() > 1 {
                        Some(size_entry(&self.data_sizes, 1))
                    } else {
                        None
                    },
                    None => None,
                }
            } else {
                match &a {
                    AnimatedStream::Planned(_) => animated_codec_stream_size(bytes, Codec::from_byte(b0).unwrap()),
                    _ => None,
                }
            };
            (static_size, end, a, size)
        };
        let node_flags = plan_node_flags(self, reach, static_size, asize);
        let movement = plan_movement(self, reach, frames);
        Ok(
            DecodePlan {
                frame_count: frames,
                static_tracks,
                animated_start: start,
                animated_end: end,
                animated,
                node_flags,
                movement,
            },
        )
    }
}

} // verus!
