//! `model_animation_graph` (jmad) metadata: the per-animation entries
//! joined with their resource payloads, the codec selector, the packed
//! data-size table, movement kinds and the node-flag bit arrays.
use vstd::prelude::*;

use vstd::string::StringSliceAdditionalSpecFns;
use vstd::utf8::valid_utf8;

use crate::api::{
    block_at, data_at, element_at, field_named, opt_text, read_enum_name_spec, read_int_spec, read_string_id_spec,
    reference_at, struct_at, TagBlock, TagField, TagStruct,
};
use crate::data::{TagBlockData, TagResourceChunk, TagStructData};
use crate::fields::{reference_of_payload, TagReferenceData};
use crate::file::TagFile;
use crate::layout::TagLayout;
use crate::path::{lookup, path_segments};
use crate::text::str_eq;

pub mod codec;
pub mod curve;
pub mod graph;
pub mod jma;
pub mod pose;

pub use jma::JmaKind;
pub use pose::{Skeleton, SkeletonNode};

verus! {

/// Errors of the animation walkers and decoders.
#[derive(Debug)]
pub enum AnimationError {
    /// The root struct has no `definitions/animations` (or
    /// `resources/animations`) block.
    NotAnAnimationGraph,
    /// The animation has an empty codec payload.
    NoCodecPayload,
    /// The first codec byte is not a known codec (`0..=11`).
    UnknownCodec(u8),
    /// The codec is known but has no decoder.
    UnsupportedCodec(Codec),
    /// The codec stream is shorter than the codec's header.
    TruncatedHeader { codec: Codec, want: usize, have: usize },
    /// A slice of the codec stream runs past the blob's end.
    TruncatedPayload { codec: Codec, want_end: usize, blob_size: usize },
}

/// Animation codec selector: the first byte of a codec stream.
#[derive(Debug, Clone, Copy, PartialEq, Eq, Structural)]
pub enum Codec {
    NoCompression,
    UncompressedStatic,
    UncompressedAnimated,
    EightByteQuantizedRotationOnly,
    ByteKeyframeLightlyQuantized,
    WordKeyframeLightlyQuantized,
    ReverseByteKeyframeLightlyQuantized,
    ReverseWordKeyframeLightlyQuantized,
    BlendScreen,
    Curve,
    RevisedCurve,
    SharedStatic,
}

/// The codec numbered `b`.
pub open spec fn codec_of(b: u8) -> Option<Codec> {
    if b == 0 {
        Some(Codec::NoCompression)
    } else if b == 1 {
        Some(Codec::UncompressedStatic)
    } else if b == 2 {
        Some(Codec::UncompressedAnimated)
    } else if b == 3 {
        Some(Codec::EightByteQuantizedRotationOnly)
    } else if b == 4 {
        Some(Codec::ByteKeyframeLightlyQuantized)
    } else if b == 5 {
        Some(Codec::WordKeyframeLightlyQuantized)
    } else if b == 6 {
        Some(Codec::ReverseByteKeyframeLightlyQuantized)
    } else if b == 7 {
        Some(Codec::ReverseWordKeyframeLightlyQuantized)
    } else if b == 8 {
        Some(Codec::BlendScreen)
    } else if b == 9 {
        Some(Codec::Curve)
    } else if b == 10 {
        Some(Codec::RevisedCurve)
    } else if b == 11 {
        Some(Codec::SharedStatic)
    } else {
        None
    }
}

impl Codec {
    /// The codec for the first byte of an `animation_data` blob; `None`
    /// outside `0..=11`.
    pub fn from_byte(b: u8) -> (r: Option<Self>)
        ensures
            r == codec_of(b),
    {
        match b {
            0 => Some(Self::NoCompression),
            1 => Some(Self::UncompressedStatic),
            2 => Some(Self::UncompressedAnimated),
            3 => Some(Self::EightByteQuantizedRotationOnly),
            4 => Some(Self::ByteKeyframeLightlyQuantized),
            5 => Some(Self::WordKeyframeLightlyQuantized),
            6 => Some(Self::ReverseByteKeyframeLightlyQuantized),
            7 => Some(Self::ReverseWordKeyframeLightlyQuantized),
            8 => Some(Self::BlendScreen),
            9 => Some(Self::Curve),
            10 => Some(Self::RevisedCurve),
            11 => Some(Self::SharedStatic),
            _ => None,
        }
    }
}

/// Codec numbers and codecs correspond one to one on `0..=11`.
pub proof fn lemma_codec_numbers_distinct(a: u8, b: u8)
    requires
        codec_of(a) is Some,
        codec_of(a) == codec_of(b),
    ensures
        a == b,
{
}

//================================================================================
// Packed data sizes
//================================================================================

/// Per-animation `data sizes` breakdown as named byte counts, in schema
/// order.
#[derive(Debug)]
pub struct PackedDataSizes {
    pub fields: Vec<(String, i64)>,
}

/// Engine flavor of the `data sizes` struct.
#[derive(Debug, Clone, Copy, PartialEq, Eq, Structural)]
pub enum SizeLayout {
    /// Halo 3 / ODST: seven mixed-width fields.
    H3,
    /// Reach onward: seventeen `i32` fields.
    Reach,
}

/// Sum of the values of `fields`.
pub open spec fn sum_sizes(fields: Seq<(String, i64)>) -> int
    decreases fields.len(),
{
    if fields.len() == 0 {
        0
    } else {
        sum_sizes(fields.drop_last()) + fields.last().1
    }
}

/// Every running sum of the values of `fields` fits in `i64`.
pub open spec fn sums_fit(fields: Seq<(String, i64)>) -> bool {
    forall|k: int| 0 <= k <= fields.len() ==> i64::MIN <= #[trigger] sum_sizes(fields.take(k)) <= i64::MAX
}

/// The value of the first entry named `name`, or 0.
pub open spec fn size_named(fields: Seq<(String, i64)>, name: Seq<char>) -> i64
    decreases fields.len(),
{
    if fields.len() == 0 {
        0
    } else if fields[0].0@ == name {
        fields[0].1
    } else {
        size_named(fields.drop_first(), name)
    }
}

/// Field names present only in Reach's `data sizes` struct.
pub open spec fn is_reach_only_name(n: Seq<char>) -> bool {
    n == "blend_screen_data"@ || n == "object_space_offset_data"@ || n == "ik_chain_event_data"@
}

impl PackedDataSizes {
    /// Sum of all subsection sizes (what the blob length should be).
    pub fn total(&self) -> (r: i64)
        requires
            sums_fit(self.fields@),
        ensures
            r == sum_sizes(self.fields@),
    {
        let mut t: i64 = 0;
        let mut k: usize = 0;
        assert(self.fields@.take(0) =~= Seq::<(String, i64)>::empty());
        while k < self.fields.len()
            invariant
                k <= self.fields@.len(),
                sums_fit(self.fields@),
                t == sum_sizes(self.fields@.take(k as int)),
            decreases self.fields@.len() - k,
        {
            let v = self.fields[k].1;
            assert(self.fields@.take(k + 1).drop_last() =~= self.fields@.take(k as int));
            assert(i64::MIN <= sum_sizes(self.fields@.take(k + 1)) <= i64::MAX);
            t = t + v;
            k = k + 1;
        }
        assert(self.fields@.take(self.fields@.len() as int) =~= self.fields@);
        t
    }

    /// The size named `name` (the first entry with that name), or 0.
    pub fn get(&self, name: &str) -> (r: i64)
        ensures
            r == size_named(self.fields@, name@),
    {
        let mut k: usize = 0;
        assert(self.fields@.skip(0) =~= self.fields@);
        while k < self.fields.len()
            invariant
                k <= self.fields@.len(),
                size_named(self.fields@, name@) == size_named(self.fields@.skip(k as int), name@),
            decreases self.fields@.len() - k,
        {
            assert(self.fields@.skip(k as int).drop_first() =~= self.fields@.skip(k + 1));
            if str_eq(self.fields[k].0.as_str(), name) {
                return self.fields[k].1;
            }
            k = k + 1;
        }
        0
    }

    /// `Reach` when any Reach-only field name is present, else `H3`.
    pub fn layout(&self) -> (r: SizeLayout)
        ensures
            r == if exists|k: int| 0 <= k < self.fields@.len() && is_reach_only_name(#[trigger] self.fields@[k].0@) {
                SizeLayout::Reach
            } else {
                SizeLayout::H3
            },
    {
        let mut k: usize = 0;
        while k < self.fields.len()
            invariant
                k <= self.fields@.len(),
                forall|j: int| 0 <= j < k ==> !is_reach_only_name(#[trigger] self.fields@[j].0@),
            decreases self.fields@.len() - k,
        {
            let n = self.fields[k].0.as_str();
            if str_eq(n, "blend_screen_data") || str_eq(n, "object_space_offset_data") || str_eq(n, "ik_chain_event_data") {
                return SizeLayout::Reach;
            }
            k = k + 1;
        }
        SizeLayout::H3
    }
}

//================================================================================
// Animation groups
//================================================================================

/// One animation: header metadata from `animations[i]` joined with its
/// resource group member's payload.
#[derive(Debug)]
pub struct AnimationGroup<'a> {
    /// Index in the animations block.
    pub index: usize,
    /// Resolved `name` string id.
    pub name: Option<String>,
    /// `animation type` option name.
    pub animation_type: Option<String>,
    /// `frame info type` option name.
    pub frame_info_type: Option<String>,
    pub frame_count: i16,
    pub node_count: i8,
    pub node_list_checksum: i32,
    /// `(-1, -1)` marks an animation with no local payload.
    pub resource_group: i16,
    pub resource_group_member: i16,
    /// `animation_checksum` of the group member, when it resolved.
    pub checksum: Option<i32>,
    /// Codec frame count of the group member.
    pub codec_frame_count: Option<i16>,
    /// `movement_data_type` option name of the group member.
    pub movement_type: Option<String>,
    pub data_sizes: Option<PackedDataSizes>,
    /// First byte of the blob (the codec number).
    pub codec_byte: Option<u8>,
    /// The `animation_data` blob (empty when missing).
    pub blob: &'a [u8],
}

impl<'a> AnimationGroup<'a> {
    /// Whether the animation's `frame info type` and the group member's
    /// `movement_data_type` are both known and differ.
    pub fn movement_type_mismatch(&self) -> (r: bool)
        ensures
            r == (self.frame_info_type matches Some(a) && self.movement_type matches Some(b) && a@ != b@),
    {
        match (&self.frame_info_type, &self.movement_type) {
            (Some(a), Some(b)) => !str_eq(a.as_str(), b.as_str()),
            _ => false,
        }
    }

    /// Codec byte of the animated stream: the byte at the static
    /// stream's size (`default_data` for H3, the first size for Reach).
    pub fn animated_codec_byte(&self) -> (r: Option<u8>)
        ensures
            r == match self.data_sizes {
                None => None,
                Some(sizes) => {
                    let reach = exists|k: int|
                        0 <= k < sizes.fields@.len() && is_reach_only_name(#[trigger] sizes.fields@[k].0@);
                    let off = if !reach {
                        size_named(sizes.fields@, "default_data"@) as usize as int
                    } else if sizes.fields@.len() > 0 {
                        sizes.fields@[0].1 as usize as int
                    } else {
                        0
                    };
                    if 0 <= off < self.blob@.len() {
                        Some(self.blob@[off])
                    } else {
                        None
                    }
                },
            },
    {
        let sizes = match &self.data_sizes {
            Some(s) => s,
            None => {
                return None;
            },
        };
        let off = match sizes.layout() {
            SizeLayout::H3 => sizes.get("default_data") as usize,
            SizeLayout::Reach => if sizes.fields.len() > 0 {
                sizes.fields[0].1 as usize
            } else {
                0
            },
        };
        if off < self.blob.len() {
            Some(self.blob[off])
        } else {
            None
        }
    }
}

/// Why an animation's animated stream was not decoded.
#[derive(Debug, Clone, Copy, PartialEq, Eq, Structural)]
pub enum AnimatedStreamStatus {
    /// The animation is static-only.
    NoAnimatedStream,
    /// The animated tracks were decoded.
    Decoded,
    /// A known codec with no decoder.
    Unsupported(Codec),
    /// A codec byte outside `0..=11`.
    Unknown(u8),
}

//================================================================================
// Movement
//================================================================================

/// Kind of per-frame root movement (`frame_info_type_enum`).
#[derive(Debug, Clone, Copy, PartialEq, Eq, Structural)]
pub enum MovementKind {
    /// No root movement.
    NoMovement,
    DxDy,
    DxDyDyaw,
    DxDyDzDyaw,
    /// Reach: dx, dy, dz and an angle-axis rotation.
    DxDyDzDangleAxis,
}

impl MovementKind {
    /// Bytes per frame on disk (four per float component).
    pub fn bytes_per_frame(self) -> (r: usize)
        ensures
            r == match self {
                MovementKind::NoMovement => 0usize,
                MovementKind::DxDy => 8,
                MovementKind::DxDyDyaw => 12,
                MovementKind::DxDyDzDyaw => 16,
                MovementKind::DxDyDzDangleAxis => 24,
            },
    {
        match self {
            Self::NoMovement => 0,
            Self::DxDy => 8,
            Self::DxDyDyaw => 12,
            Self::DxDyDzDyaw => 16,
            Self::DxDyDzDangleAxis => 24,
        }
    }

    /// The kind a `frame_info_type_enum` option name denotes; unknown
    /// names are `NoMovement`.
    pub fn from_schema_name(name: &str) -> (r: Self)
        ensures
            r == if name@ == "dx,dy"@ {
                MovementKind::DxDy
            } else if name@ == "dx,dy,dyaw"@ {
                MovementKind::DxDyDyaw
            } else if name@ == "dx,dy,dz,dyaw"@ {
                MovementKind::DxDyDzDyaw
            } else if name@ == "dx,dy,dz,dangle_axis"@ {
                MovementKind::DxDyDzDangleAxis
            } else {
                MovementKind::NoMovement
            },
    {
        if str_eq(name, "dx,dy") {
            Self::DxDy
        } else if str_eq(name, "dx,dy,dyaw") {
            Self::DxDyDyaw
        } else if str_eq(name, "dx,dy,dz,dyaw") {
            Self::DxDyDzDyaw
        } else if str_eq(name, "dx,dy,dz,dangle_axis") {
            Self::DxDyDzDangleAxis
        } else {
            Self::NoMovement
        }
    }
}

//================================================================================
// Node flags
//================================================================================

/// Tightly packed bit array of `u32` words (little-endian on disk).
#[derive(Debug)]
pub struct BitArray {
    pub words: Vec<u32>,
}

/// Per-component node-flag bit arrays of the static and animated codec
/// streams.
#[derive(Debug)]
pub struct NodeFlags {
    pub static_rotation: BitArray,
    pub static_translation: BitArray,
    pub static_scale: BitArray,
    pub animated_rotation: BitArray,
    pub animated_translation: BitArray,
    pub animated_scale: BitArray,
}

/// Bit `i` of a word sequence; bits past the end are clear.
pub open spec fn word_bit(words: Seq<u32>, i: int) -> bool {
    0 <= i && i / 32 < words.len() && (words[i / 32] >> ((i % 32) as u32)) & 1u32 == 1u32
}

/// Number of set bits below `n`.
pub open spec fn set_bits_below(words: Seq<u32>, n: int) -> nat
    decreases n,
{
    if n <= 0 {
        0
    } else {
        set_bits_below(words, n - 1) + if word_bit(words, n - 1) {
            1nat
        } else {
            0nat
        }
    }
}

/// The little-endian words of `bytes`; trailing bytes that do not fill
/// a word are dropped.
pub open spec fn words_of(bytes: Seq<u8>) -> Seq<u32> {
    Seq::new(bytes.len() / 4, |k: int| crate::bytes::le_u32(bytes, 4 * k))
}

impl BitArray {
    /// Parse little-endian `u32` words.
    pub fn from_bytes(bytes: &[u8]) -> (r: Self)
        ensures
            r.words@ == words_of(bytes@),
    {
        let n = bytes.len() / 4;
        let mut words: Vec<u32> = Vec::new();
        let mut k: usize = 0;
        while k < n
            invariant
                k <= n,
                n == bytes@.len() / 4,
                bytes@.len() == bytes.len(),
                bytes.len() <= usize::MAX,
                words@ == words_of(bytes@).take(k as int),
            decreases n - k,
        {
            assert(4 * k + 4 <= bytes@.len()) by (nonlinear_arith)
                requires
                    k < n,
                    n == bytes@.len() / 4,
            ;
            assert(4 * k + 4 <= usize::MAX);
            words.push(crate::bytes::read_u32_le(bytes, 4 * k));
            k = k + 1;
            assert(words@ =~= words_of(bytes@).take(k as int));
        }
        assert(words_of(bytes@).take(n as int) =~= words_of(bytes@));
        BitArray { words }
    }

    /// Bit `index` (`false` past the end).
    pub fn bit(&self, index: usize) -> (r: bool)
        ensures
            r == word_bit(self.words@, index as int),
    {
        let w = index / 32;
        let b = (index % 32) as u32;
        if w < self.words.len() {
            (self.words[w] >> b) & 1 == 1
        } else {
            false
        }
    }

    /// Number of set bits in `[0, bound)`: the position of a bone in the
    /// codec's own node enumeration.
    pub fn popcount_below(&self, bound: usize) -> (r: usize)
        ensures
            r == set_bits_below(self.words@, bound as int),
            r == set_bit_positions(self.words@, bound as int).len(),
    {
        let limit: usize = if self.words.len() <= usize::MAX / 32 {
            self.words.len() * 32
        } else {
            usize::MAX
        };
        let stop = if bound < limit { bound } else { limit };
        let mut count: usize = 0;
        let mut i: usize = 0;
        while i < stop
            invariant
                i <= stop <= bound,
                count == set_bits_below(self.words@, i as int),
                count <= i,
            decreases stop - i,
        {
            if self.bit(i) {
                count = count + 1;
            }
            i = i + 1;
        }
        proof {
            lemma_no_bits_past_end(self.words@, stop as int, bound as int);
            lemma_set_bits_below_is_cardinality(self.words@, bound as int);
        }
        count
    }
}

/// The positions below `n` whose bit is set.
pub open spec fn set_bit_positions(words: Seq<u32>, n: int) -> Set<int> {
    Set::new(|i: int| 0 <= i < n && word_bit(words, i))
}

/// The count of set bits below `n` is the size of the set of positions
/// below `n` whose bit is set, bits past the words reading as clear.
pub proof fn lemma_set_bits_below_is_cardinality(words: Seq<u32>, n: int)
    requires
        0 <= n,
    ensures
        set_bit_positions(words, n).finite(),
        set_bit_positions(words, n).len() == set_bits_below(words, n),
    decreases n,
{
    if n == 0 {
        assert(set_bit_positions(words, 0) =~= Set::<int>::empty());
    } else {
        lemma_set_bits_below_is_cardinality(words, n - 1);
        let prev = set_bit_positions(words, n - 1);
        if word_bit(words, n - 1) {
            assert(set_bit_positions(words, n) =~= prev.insert(n - 1));
            assert(!prev.contains(n - 1));
        } else {
            assert(set_bit_positions(words, n) =~= prev);
        }
    }
}

/// Bits past the words add nothing to the count.
proof fn lemma_no_bits_past_end(words: Seq<u32>, from: int, to: int)
    requires
        0 <= from <= to,
        from >= 32 * words.len() || from == to,
    ensures
        set_bits_below(words, to) == set_bits_below(words, from),
    decreases to - from,
{
    if from < to {
        lemma_no_bits_past_end(words, from, to - 1);
        assert((to - 1) / 32 >= words.len());
    }
}

/// The count of set bits grows by one exactly at set bits, so a set
/// bit's rank is below the count up to any later bound.
pub proof fn lemma_popcount_rank(words: Seq<u32>, i: int, n: int)
    requires
        0 <= i < n,
        word_bit(words, i),
    ensures
        set_bits_below(words, i + 1) == set_bits_below(words, i) + 1,
        set_bits_below(words, i) < set_bits_below(words, n),
    decreases n - i,
{
    if i + 1 < n {
        lemma_popcount_rank(words, i, n - 1);
    }
}


//================================================================================
// Walking a jmad
//================================================================================

/// An instance of a struct: its tree and its bytes.
pub type Instance = (TagStructData, Seq<u8>);

/// The root instance of a tag file.
pub open spec fn root_instance(tag: TagFile) -> Instance {
    element_at(tag.tag_stream.layout, tag.tag_stream.data, 0)
}

/// The field that `path` names in `inst`.
pub open spec fn path_field(layout: TagLayout, inst: Instance, path: Seq<char>) -> Option<(TagStructData, Seq<u8>, int)> {
    lookup(layout, inst.0, inst.1, path_segments(vstd::utf8::encode_utf8(path)))
}

/// The block that `path` names in `inst`.
pub open spec fn path_block(layout: TagLayout, inst: Instance, path: Seq<char>) -> Option<TagBlockData> {
    match path_field(layout, inst, path) {
        Some((d, _, fi)) => block_at(layout, d, fi),
        None => None,
    }
}

/// The block held by the field named `name` of `inst`.
pub open spec fn named_block(layout: TagLayout, inst: Instance, name: Seq<char>) -> Option<TagBlockData> {
    match field_named(layout, inst.0, name) {
        Some(fi) => block_at(layout, inst.0, fi),
        None => None,
    }
}

/// The payload of the data field named `name` of `inst`.
pub open spec fn named_data(layout: TagLayout, inst: Instance, name: Seq<char>) -> Option<Seq<u8>> {
    match field_named(layout, inst.0, name) {
        Some(fi) => data_at(layout, inst.0, fi),
        None => None,
    }
}

/// The nested instance held by the struct field named `name` of `inst`.
pub open spec fn named_struct(layout: TagLayout, inst: Instance, name: Seq<char>) -> Option<Instance> {
    match field_named(layout, inst.0, name) {
        Some(fi) => struct_at(layout, inst.0, inst.1, fi),
        None => None,
    }
}

/// A path under the jmad's top-level struct: `definitions` on current
/// layouts, `resources` on older inline ones; `which` picks the field
/// (0: `animations`, 1: `skeleton nodes`, 2: `parent animation graph`).
pub open spec fn top_path(definitions: bool, which: u8) -> Seq<char> {
    if definitions {
        if which == 0 {
            "definitions/animations"@
        } else if which == 1 {
            "definitions/skeleton nodes"@
        } else {
            "definitions/parent animation graph"@
        }
    } else {
        if which == 0 {
            "resources/animations"@
        } else if which == 1 {
            "resources/skeleton nodes"@
        } else {
            "resources/parent animation graph"@
        }
    }
}

/// Which top-level prefix carries the animations field: `Some(true)` for
/// `definitions`, `Some(false)` for `resources`.
pub open spec fn anim_prefix(layout: TagLayout, root: Instance) -> Option<bool> {
    if path_field(layout, root, top_path(true, 0)) is Some {
        Some(true)
    } else if path_field(layout, root, top_path(false, 0)) is Some {
        Some(false)
    } else {
        None
    }
}

/// The resource struct of a `tag resource groups` element: the exploded
/// payload of its `tag_resource` field read as one instance.
pub open spec fn resource_header(layout: TagLayout, e: Instance) -> Option<Instance> {
    match field_named(layout, e.0, "tag_resource"@) {
        Some(fi) => if layout.fields@[fi].field_type == crate::fields::TagFieldType::PageableResource {
            match crate::data::entry_of(e.0.sub_chunks@, fi) {
                Some(j) => match e.0.sub_chunks@[j].content {
                    crate::data::TagSubChunkContent::Resource(TagResourceChunk::Exploded { exploded, struct_data }) => {
                        if exploded@.len() == layout.struct_layouts@[struct_data.struct_index as int].size {
                            Some((struct_data, exploded@))
                        } else {
                            None
                        }
                    },
                    _ => None,
                },
                None => None,
            }
        } else {
            None
        },
        None => None,
    }
}

/// Group member `rgm` of resource group `rg`, when both indices resolve.
pub open spec fn member_of(layout: TagLayout, root: Instance, rg: int, rgm: int) -> Option<Instance> {
    if rg < 0 || rgm < 0 {
        None
    } else {
        match path_block(layout, root, "tag resource groups"@) {
            None => None,
            Some(b) => if rg >= b.elements@.len() {
                None
            } else {
                match resource_header(layout, element_at(layout, b, rg)) {
                    None => None,
                    Some(h) => match named_block(layout, h, "group_members"@) {
                        Some(mb) => if rgm < mb.elements@.len() {
                            Some(element_at(layout, mb, rgm))
                        } else {
                            None
                        },
                        None => None,
                    },
                }
            }
        }
    }
}

/// The struct carrying an animation's metadata: element 0 of its
/// `shared animation data` block when that element has a
/// `resource_group` or `frame count` field, else the animation itself.
pub open spec fn metadata_of(layout: TagLayout, anim: Instance) -> Instance {
    match named_block(layout, anim, "shared animation data"@) {
        Some(b) => if b.elements@.len() > 0 && (field_named(layout, b.elements@[0], "resource_group"@) is Some
            || field_named(layout, b.elements@[0], "frame count"@) is Some) {
            element_at(layout, b, 0)
        } else {
            anim
        },
        None => anim,
    }
}

/// The name of field `fi` (`""` when the string table lacks it).
pub open spec fn field_name_of(layout: TagLayout, fi: int) -> Seq<char> {
    match layout.spec_get_string(layout.fields@[fi].name_offset) {
        Some(n) => n,
        None => Seq::empty(),
    }
}

/// The named integer sizes read for the field list `fis` of `s`: each
/// field whose name reads as an integer, in order.
pub open spec fn sizes_from(layout: TagLayout, s: Instance, fis: Seq<int>) -> Seq<(Seq<char>, i64)>
    decreases fis.len(),
{
    if fis.len() == 0 {
        Seq::empty()
    } else {
        let rest = sizes_from(layout, s, fis.drop_last());
        let n = field_name_of(layout, fis.last());
        match read_int_spec(layout, s.0, s.1, n) {
            Some(v) => rest.push((n, v)),
            None => rest,
        }
    }
}

/// The `data sizes` table of `inst`.
pub open spec fn packed_sizes_of(layout: TagLayout, inst: Instance) -> Option<Seq<(Seq<char>, i64)>> {
    match named_struct(layout, inst, "data sizes"@) {
        Some(s) => Some(sizes_from(layout, s, layout.visible_fields(s.0.struct_index as int))),
        None => None,
    }
}

/// The text view of a size table.
pub open spec fn sizes_view(fields: Seq<(String, i64)>) -> Seq<(Seq<char>, i64)> {
    Seq::new(fields.len(), |k: int| (fields[k].0@, fields[k].1))
}

/// The text view of an optional size table.
pub open spec fn opt_sizes_view(s: Option<PackedDataSizes>) -> Option<Seq<(Seq<char>, i64)>> {
    match s {
        Some(p) => Some(sizes_view(p.fields@)),
        None => None,
    }
}

/// An optional integer narrowed as the walker narrows it.
pub open spec fn opt_i32(o: Option<i64>) -> Option<i32> {
    match o {
        Some(v) => Some(v as i32),
        None => None,
    }
}

/// An optional integer narrowed to `i16`.
pub open spec fn opt_i16(o: Option<i64>) -> Option<i16> {
    match o {
        Some(v) => Some(v as i16),
        None => None,
    }
}

/// The integer of `o`, or `d`.
pub open spec fn int_or(o: Option<i64>, d: i64) -> i64 {
    match o {
        Some(v) => v,
        None => d,
    }
}

/// The first byte of `b`.
pub open spec fn first_byte(b: Seq<u8>) -> Option<u8> {
    if b.len() > 0 {
        Some(b[0])
    } else {
        None
    }
}

/// The payload fields of an animation before the inline fallback:
/// `(checksum, codec frame count, movement type, data sizes, blob)`.
pub open spec fn member_payload(layout: TagLayout, member: Option<Instance>) -> (
    Option<i32>,
    Option<i16>,
    Option<Seq<char>>,
    Option<Seq<(Seq<char>, i64)>>,
    Seq<u8>,
) {
    match member {
        None => (None, None, None, None, Seq::empty()),
        Some(m) => (
            opt_i32(read_int_spec(layout, m.0, m.1, "animation_checksum"@)),
            opt_i16(read_int_spec(layout, m.0, m.1, "frame count"@)),
            read_enum_name_spec(layout, m.0, m.1, "movement_data_type"@),
            packed_sizes_of(layout, m),
            match named_data(layout, m, "animation_data"@) {
                Some(b) => b,
                None => Seq::empty(),
            },
        ),
    }
}

/// Animation `i` of a jmad, as [`Animation::new`] reads it.
pub open spec fn group_matches(layout: TagLayout, root: Instance, anim: Instance, i: int, g: AnimationGroup) -> bool {
    let md = metadata_of(layout, anim);
    let frame_count = int_or(read_int_spec(layout, md.0, md.1, "frame count"@), 0) as i16;
    let rg = int_or(read_int_spec(layout, md.0, md.1, "resource_group"@), -1i64) as i16;
    let rgm = int_or(read_int_spec(layout, md.0, md.1, "resource_group_member"@), -1i64) as i16;
    let frame_info = read_enum_name_spec(layout, md.0, md.1, "frame info type"@);
    let p = member_payload(layout, member_of(layout, root, rg as int, rgm as int));
    let inline = p.4.len() == 0 && p.3 is None;
    let inline_blob = match named_data(layout, md, "animation data"@) {
        Some(b) => Some(b),
        None => named_data(layout, md, "animation_data"@),
    };
    &&& g.index == i
    &&& opt_text(g.name) == read_string_id_spec(layout, anim.0, "name"@)
    &&& opt_text(g.animation_type) == match read_enum_name_spec(layout, md.0, md.1, "animation type"@) {
        Some(t) => Some(t),
        None => read_enum_name_spec(layout, md.0, md.1, "type"@),
    }
    &&& opt_text(g.frame_info_type) == frame_info
    &&& g.frame_count == frame_count
    &&& g.node_count == int_or(read_int_spec(layout, md.0, md.1, "node count"@), 0) as i8
    &&& g.node_list_checksum == int_or(read_int_spec(layout, md.0, md.1, "node list checksum"@), 0) as i32
    &&& g.resource_group == rg
    &&& g.resource_group_member == rgm
    &&& if !inline {
        &&& g.checksum == p.0
        &&& g.codec_frame_count == p.1
        &&& opt_text(g.movement_type) == p.2
        &&& opt_sizes_view(g.data_sizes) == p.3
        &&& g.blob@ == p.4
    } else {
        &&& g.checksum == match p.0 {
            Some(c) => Some(c),
            None => opt_i32(read_int_spec(layout, md.0, md.1, "production checksum"@)),
        }
        &&& g.codec_frame_count == match p.1 {
            Some(c) => Some(c),
            None => Some(frame_count),
        }
        &&& opt_text(g.movement_type) == match p.2 {
            Some(t) => Some(t),
            None => frame_info,
        }
        &&& opt_sizes_view(g.data_sizes) == packed_sizes_of(layout, md)
        &&& g.blob@ == match inline_blob {
            Some(b) => b,
            None => p.4,
        }
    }
    &&& g.codec_byte == first_byte(g.blob@)
}

/// The parent graph path held by a tag-reference payload: the path when
/// it is present and non-empty.
pub open spec fn parent_of_payload(p: Option<Seq<u8>>) -> Option<Seq<char>> {
    match p {
        Some(payload) => match reference_of_payload(payload) {
            Some((_, name)) => if name.len() > 0 {
                Some(name)
            } else {
                None
            },
            None => None,
        },
        None => None,
    }
}

/// The payload of the tag-reference field `path` names in `root`.
pub open spec fn reference_named(layout: TagLayout, root: Instance, path: Seq<char>) -> Option<Seq<u8>> {
    match path_field(layout, root, path) {
        Some((d, _, fi)) => reference_at(layout, d, fi),
        None => None,
    }
}

/// The parent reference's path, if any, is valid UTF-8.
pub open spec fn parent_reference_utf8(layout: TagLayout, root: Instance) -> bool {
    forall|definitions: bool|
        #![trigger top_path(definitions, 2)]
        reference_named(layout, root, top_path(definitions, 2)) matches Some(p) ==> (p.len()
            >= 4 ==> valid_utf8(p.skip(4)))
}

/// All animations of a jmad, each joined with its resource payload.
pub struct Animation<'a> {
    pub(crate) animations: Vec<AnimationGroup<'a>>,
    pub(crate) parent: Option<String>,
}

/// An animation named `name` in `gs` (string-id names; unnamed ones
/// never match).
pub open spec fn named_group_index(gs: Seq<AnimationGroup>, name: Seq<char>, k: int) -> Option<int>
    decreases gs.len() - k,
{
    if k < 0 || k >= gs.len() {
        None
    } else if opt_text(gs[k].name) == Some(name) {
        Some(k)
    } else {
        named_group_index(gs, name, k + 1)
    }
}

/// Number of animations in `gs[..n]` whose group member did not resolve.
pub open spec fn unresolved_below(gs: Seq<AnimationGroup>, n: int) -> nat
    decreases n,
{
    if n <= 0 {
        0
    } else {
        unresolved_below(gs, n - 1) + if gs[n - 1].checksum is None {
            1nat
        } else {
            0nat
        }
    }
}

/// The handle of `path` inside the root: `definitions/..` or
/// `resources/..`.
fn top_field<'a>(root: TagStruct<'a>, definitions: bool, which: u8) -> (r: Option<TagField<'a>>)
    requires
        which < 3,
    ensures
        ({
            let path = top_path(definitions, which);
            &&& r matches Some(f) ==> path_field(root.spec_layout(), (root.spec_data(), root.spec_raw()), path) == Some(
                (f.spec_data(), f.spec_raw(), f.spec_field_index()),
            ) && f.spec_layout() == root.spec_layout()
            &&& r is None ==> path_field(root.spec_layout(), (root.spec_data(), root.spec_raw()), path) is None
        }),
{
    if definitions {
        if which == 0 {
            root.field_path("definitions/animations")
        } else if which == 1 {
            root.field_path("definitions/skeleton nodes")
        } else {
            root.field_path("definitions/parent animation graph")
        }
    } else {
        if which == 0 {
            root.field_path("resources/animations")
        } else if which == 1 {
            root.field_path("resources/skeleton nodes")
        } else {
            root.field_path("resources/parent animation graph")
        }
    }
}

/// The instance a struct handle reads.
pub open spec fn inst(st: TagStruct) -> Instance {
    (st.spec_data(), st.spec_raw())
}

/// The block held by the field named `name`.
fn block_named<'a>(st: TagStruct<'a>, name: &str) -> (r: Option<TagBlock<'a>>)
    ensures
        r matches Some(b) ==> named_block(st.spec_layout(), inst(st), name@) == Some(b.spec_data()) && b.spec_layout()
            == st.spec_layout(),
        r is None ==> named_block(st.spec_layout(), inst(st), name@) is None,
{
    match st.field(name) {
        Some(f) => f.as_block(),
        None => None,
    }
}

/// The payload of the data field named `name`.
fn data_named<'a>(st: TagStruct<'a>, name: &str) -> (r: Option<&'a [u8]>)
    ensures
        r matches Some(b) ==> named_data(st.spec_layout(), inst(st), name@) == Some(b@),
        r is None ==> named_data(st.spec_layout(), inst(st), name@) is None,
{
    match st.field(name) {
        Some(f) => f.as_data(),
        None => None,
    }
}

/// The nested struct held by the struct field named `name`.
fn struct_named<'a>(st: TagStruct<'a>, name: &str) -> (r: Option<TagStruct<'a>>)
    ensures
        r matches Some(t) ==> named_struct(st.spec_layout(), inst(st), name@) == Some(inst(t)) && t.spec_layout()
            == st.spec_layout(),
        r is None ==> named_struct(st.spec_layout(), inst(st), name@) is None,
{
    match st.field(name) {
        Some(f) => f.as_struct(),
        None => None,
    }
}

/// Group member `rgm` of resource group `rg` of the jmad rooted at `root`.
fn resolve_member<'a>(root: TagStruct<'a>, rg: i16, rgm: i16) -> (r: Option<TagStruct<'a>>)
    ensures
        r matches Some(m) ==> member_of(root.spec_layout(), inst(root), rg as int, rgm as int) == Some(inst(m))
            && m.spec_layout() == root.spec_layout(),
        r is None ==> member_of(root.spec_layout(), inst(root), rg as int, rgm as int) is None,
{
    if rg < 0 || rgm < 0 {
        return None;
    }
    proof {
        reveal_strlit("tag resource groups");
    }
    let groups = match root.field_path("tag resource groups") {
        Some(f) => match f.as_block() {
            Some(b) => b,
            None => {
                return None;
            },
        },
        None => {
            return None;
        },
    };
    let elem = match groups.element(rg as usize) {
        Some(e) => e,
        None => {
            return None;
        },
    };
    let header = match elem.field("tag_resource") {
        Some(f) => match f.as_resource() {
            Some(res) => res.as_struct(),
            None => None,
        },
        None => None,
    };
    let header = match header {
        Some(h) => h,
        None => {
            return None;
        },
    };
    match block_named(header, "group_members") {
        Some(members) => members.element(rgm as usize),
        None => None,
    }
}

/// The struct carrying an animation's metadata (see [`metadata_of`]).
fn read_metadata<'a>(anim: TagStruct<'a>) -> (r: TagStruct<'a>)
    ensures
        inst(r) == metadata_of(anim.spec_layout(), inst(anim)),
        r.spec_layout() == anim.spec_layout(),
{
    match block_named(anim, "shared animation data") {
        Some(b) => match b.element(0) {
            Some(e) => {
                if e.field("resource_group").is_some() || e.field("frame count").is_some() {
                    e
                } else {
                    anim
                }
            },
            None => anim,
        },
        None => anim,
    }
}

/// The `data sizes` table of `member`: each field of the `data sizes`
/// struct whose name reads as an integer, in order.
fn read_packed_data_sizes(member: TagStruct) -> (r: Option<PackedDataSizes>)
    ensures
        opt_sizes_view(r) == packed_sizes_of(member.spec_layout(), inst(member)),
{
    let s = match struct_named(member, "data sizes") {
        Some(s) => s,
        None => {
            return None;
        },
    };
    let fs = s.fields();
    let ghost fis = s.spec_layout().visible_fields(s.spec_struct_index());
    let mut out: Vec<(String, i64)> = Vec::new();
    let mut k: usize = 0;
    while k < fs.len()
        invariant
            k <= fs@.len(),
            fs@.len() == fis.len(),
            forall|j: int|
                0 <= j < fs@.len() ==> {
                    &&& (#[trigger] fs@[j]).spec_field_index() == fis[j]
                    &&& fs@[j].spec_data() == s.spec_data()
                    &&& fs@[j].spec_raw() == s.spec_raw()
                    &&& fs@[j].spec_layout() == s.spec_layout()
                },
            sizes_view(out@) == sizes_from(s.spec_layout(), inst(s), fis.take(k as int)),
        decreases fs@.len() - k,
    {
        let name = fs[k].name();
        let v = s.read_int_any(name);
        proof {
            assert(fis.take(k + 1).drop_last() =~= fis.take(k as int));
            assert(fis.take(k + 1).last() == fis[k as int]);
        }
        match v {
            Some(v) => {
                let ghost before = out@;
                let owned = name.to_owned();
                out.push((owned, v));
                proof {
                    assert(sizes_view(out@) =~= sizes_view(before).push((name@, v)));
                }
            },
            None => {},
        }
        k = k + 1;
    }
    proof {
        assert(fis.take(fs@.len() as int) =~= fis);
    }
    Some(PackedDataSizes { fields: out })
}

/// A copy of an optional string.
fn copy_text(o: &Option<String>) -> (r: Option<String>)
    ensures
        opt_text(r) == opt_text(*o),
{
    match o {
        Some(t) => Some(t.clone()),
        None => None,
    }
}

/// The first byte of `b`.
fn first_of(b: &[u8]) -> (r: Option<u8>)
    ensures
        r == first_byte(b@),
{
    if b.len() > 0 {
        Some(b[0])
    } else {
        None
    }
}

/// Animation `index`: its header metadata joined with its group
/// member's payload, falling back to an inline payload on older layouts.
fn read_group<'a>(root: TagStruct<'a>, anim: TagStruct<'a>, index: usize, empty: &'a [u8]) -> (g: AnimationGroup<'a>)
    requires
        anim.spec_layout() == root.spec_layout(),
        empty@.len() == 0,
    ensures
        group_matches(root.spec_layout(), inst(root), inst(anim), index as int, g),
{
    assert(empty@ =~= Seq::<u8>::empty());
    let name = anim.read_string_id("name");
    let metadata = read_metadata(anim);
    let animation_type = match metadata.read_enum_name("animation type") {
        Some(t) => Some(t),
        None => metadata.read_enum_name("type"),
    };
    let frame_info_type = metadata.read_enum_name("frame info type");
    let frame_count: i16 = match metadata.read_int_any("frame count") {
        Some(v) => v as i16,
        None => 0,
    };
    let node_count: i8 = match metadata.read_int_any("node count") {
        Some(v) => v as i8,
        None => 0,
    };
    let node_list_checksum: i32 = match metadata.read_int_any("node list checksum") {
        Some(v) => v as i32,
        None => 0,
    };
    let resource_group: i16 = match metadata.read_int_any("resource_group") {
        Some(v) => v as i16,
        None => -1,
    };
    let resource_group_member: i16 = match metadata.read_int_any("resource_group_member") {
        Some(v) => v as i16,
        None => -1,
    };
    let member = resolve_member(root, resource_group, resource_group_member);
    let mut checksum: Option<i32> = None;
    let mut codec_frame_count: Option<i16> = None;
    let mut movement_type: Option<String> = None;
    let mut data_sizes: Option<PackedDataSizes> = None;
    let mut blob: &'a [u8] = empty;
    match member {
        Some(m) => {
            checksum = match m.read_int_any("animation_checksum") {
                Some(v) => Some(v as i32),
                None => None,
            };
            codec_frame_count = match m.read_int_any("frame count") {
                Some(v) => Some(v as i16),
                None => None,
            };
            movement_type = m.read_enum_name("movement_data_type");
            data_sizes = read_packed_data_sizes(m);
            blob = match data_named(m, "animation_data") {
                Some(b) => b,
                None => empty,
            };
        },
        None => {},
    }
    let mut codec_byte = first_of(blob);
    if blob.len() == 0 && data_sizes.is_none() {
        let inline_blob = match data_named(metadata, "animation data") {
            Some(b) => Some(b),
            None => data_named(metadata, "animation_data"),
        };
        match inline_blob {
            Some(b) => {
                blob = b;
                codec_byte = first_of(blob);
            },
            None => {},
        }
        data_sizes = read_packed_data_sizes(metadata);
        if movement_type.is_none() {
            movement_type = copy_text(&frame_info_type);
        }
        if checksum.is_none() {
            checksum = match metadata.read_int_any("production checksum") {
                Some(v) => Some(v as i32),
                None => None,
            };
        }
        if codec_frame_count.is_none() {
            codec_frame_count = Some(frame_count);
        }
    }
    AnimationGroup {
        index,
        name,
        animation_type,
        frame_info_type,
        frame_count,
        node_count,
        node_list_checksum,
        resource_group,
        resource_group_member,
        checksum,
        codec_frame_count,
        movement_type,
        data_sizes,
        codec_byte,
        blob,
    }
}

/// The animations block of a jmad, when the tag is one.
pub open spec fn animations_block(layout: TagLayout, root: Instance) -> Option<TagBlockData> {
    match anim_prefix(layout, root) {
        Some(defs) => path_block(layout, root, top_path(defs, 0)),
        None => None,
    }
}

/// The parent graph path of a jmad whose top-level prefix is `defs`.
pub open spec fn parent_path_of(layout: TagLayout, root: Instance, defs: bool) -> Option<Seq<char>> {
    parent_of_payload(reference_named(layout, root, top_path(defs, 2)))
}

impl<'a> Animation<'a> {
    /// The animations, in declaration order.
    pub closed spec fn spec_groups(&self) -> Seq<AnimationGroup<'a>> {
        self.animations@
    }

    /// The parent graph path.
    pub closed spec fn spec_parent(&self) -> Option<Seq<char>> {
        opt_text(self.parent)
    }

    /// Walk a `model_animation_graph` tag: every element of its
    /// `definitions/animations` block (`resources/animations` on older
    /// layouts), each joined with its `tag resource groups` payload, and
    /// the path of its parent graph. Inheriting tags succeed with no
    /// animations and a parent.
    pub fn new(tag: &'a TagFile) -> (r: Result<Self, AnimationError>)
        requires
            tag.wf(),
            tag.tag_stream.data.elements@.len() > 0,
            parent_reference_utf8(tag.tag_stream.layout, root_instance(*tag)),
        ensures
            r is Err <==> animations_block(tag.tag_stream.layout, root_instance(*tag)) is None,
            r is Err ==> r matches Err(AnimationError::NotAnAnimationGraph),
            r matches Ok(a) ==> {
                let layout = tag.tag_stream.layout;
                let root = root_instance(*tag);
                let b = animations_block(layout, root).unwrap();
                &&& a.spec_groups().len() == b.elements@.len()
                &&& forall|k: int|
                    0 <= k < b.elements@.len() ==> group_matches(
                        layout,
                        root,
                        element_at(layout, b, k),
                        k,
                        #[trigger] a.spec_groups()[k],
                    )
                &&& a.spec_parent() == parent_path_of(layout, root, anim_prefix(layout, root).unwrap())
            },
    {
        let root = tag.root();
        let ghost layout = tag.tag_stream.layout;
        let ghost root_inst = root_instance(*tag);
        assert(inst(root) == root_inst);
        let definitions = if top_field(root, true, 0).is_some() {
            true
        } else if top_field(root, false, 0).is_some() {
            false
        } else {
            return Err(AnimationError::NotAnAnimationGraph);
        };
        let block = match top_field(root, definitions, 0) {
            Some(f) => match f.as_block() {
                Some(b) => b,
                None => {
                    return Err(AnimationError::NotAnAnimationGraph);
                },
            },
            None => {
                return Err(AnimationError::NotAnAnimationGraph);
            },
        };
        let empty: &'a [u8] = &[];
        let mut animations: Vec<AnimationGroup<'a>> = Vec::new();
        let n = block.len();
        let mut i: usize = 0;
        while i < n
            invariant
                i <= n,
                n == block.spec_data().elements@.len(),
                block.spec_layout() == layout,
                root.spec_layout() == layout,
                inst(root) == root_inst,
                empty@.len() == 0,
                animations@.len() == i,
                forall|k: int|
                    0 <= k < i ==> group_matches(
                        layout,
                        root_inst,
                        element_at(layout, block.spec_data(), k),
                        k,
                        #[trigger] animations@[k],
                    ),
            decreases n - i,
        {
            match block.element(i) {
                Some(anim) => {
                    let g = read_group(root, anim, i, empty);
                    animations.push(g);
                },
                None => {},
            }
            i = i + 1;
        }
        let parent = match top_field(root, definitions, 2) {
            Some(f) => match f.reference_payload() {
                Some(p) => {
                    let r = TagReferenceData::from_bytes(p);
                    match r.group_tag_and_name {
                        Some((_, name)) => if name.as_str().is_empty() {
                            None
                        } else {
                            Some(name)
                        },
                        None => None,
                    }
                },
                None => None,
            },
            None => None,
        };
        Ok(Animation { animations, parent })
    }

    /// Number of local animations (zero on inheriting tags).
    pub fn len(&self) -> (r: usize)
        ensures
            r == self.spec_groups().len(),
    {
        self.animations.len()
    }

    /// Whether there are no local animations.
    pub fn is_empty(&self) -> (r: bool)
        ensures
            r == (self.spec_groups().len() == 0),
    {
        self.animations.len() == 0
    }

    /// Every animation, in declaration order.
    pub fn iter(&self) -> (r: &[AnimationGroup<'a>])
        ensures
            r@ == self.spec_groups(),
    {
        self.animations.as_slice()
    }

    /// Animation `index`, or `None` past the end.
    pub fn get(&self, index: usize) -> (r: Option<&AnimationGroup<'a>>)
        ensures
            r is Some <==> index < self.spec_groups().len(),
            r matches Some(g) ==> *g == self.spec_groups()[index as int],
    {
        if index < self.animations.len() {
            Some(&self.animations[index])
        } else {
            None
        }
    }

    /// The first animation whose name is `name`.
    pub fn find(&self, name: &str) -> (r: Option<&AnimationGroup<'a>>)
        ensures
            r is Some <==> named_group_index(self.spec_groups(), name@, 0) is Some,
            r matches Some(g) ==> *g == self.spec_groups()[named_group_index(self.spec_groups(), name@, 0).unwrap()],
    {
        let mut k: usize = 0;
        while k < self.animations.len()
            invariant
                k <= self.spec_groups().len(),
                named_group_index(self.spec_groups(), name@, 0) == named_group_index(self.spec_groups(), name@, k as int),
            decreases self.spec_groups().len() - k,
        {
            let hit = match &self.animations[k].name {
                Some(n) => str_eq(n.as_str(), name),
                None => false,
            };
            if hit {
                return Some(&self.animations[k]);
            }
            k = k + 1;
        }
        None
    }

    /// Path of the parent graph, when the tag names a non-empty one.
    pub fn parent(&self) -> (r: Option<&str>)
        ensures
            match r {
                Some(p) => self.spec_parent() == Some(p@),
                None => self.spec_parent() is None,
            },
    {
        match &self.parent {
            Some(p) => Some(p.as_str()),
            None => None,
        }
    }

    /// Number of animations whose group member did not resolve.
    pub fn unresolved_count(&self) -> (r: usize)
        ensures
            r == unresolved_below(self.spec_groups(), self.spec_groups().len() as int),
    {
        let mut count: usize = 0;
        let mut k: usize = 0;
        while k < self.animations.len()
            invariant
                k <= self.spec_groups().len(),
                count == unresolved_below(self.spec_groups(), k as int),
                count <= k,
            decreases self.spec_groups().len() - k,
        {
            if self.animations[k].checksum.is_none() {
                count = count + 1;
            }
            k = k + 1;
        }
        count
    }
}

} // verus!
