//! The jmad skeleton: the bone hierarchy animations target.
use vstd::prelude::*;

use super::{path_block, set_bits_below, top_field, top_path, word_bit, BitArray, Instance, NodeFlags};
use crate::api::{element_at, read_block_index_spec, read_string_id_spec};
use crate::data::TagBlockData;
use crate::file::TagFile;
use crate::layout::TagLayout;

verus! {

/// One node of `skeleton nodes`.
#[derive(Debug)]
pub struct SkeletonNode {
    pub name: String,
    /// Index of the first child, or `-1`.
    pub first_child: i16,
    /// Index of the next sibling, or `-1`.
    pub next_sibling: i16,
    /// Index of the parent, or `-1` for the root.
    pub parent: i16,
}

/// A flat list of skeleton nodes.
#[derive(Debug)]
pub struct Skeleton {
    pub nodes: Vec<SkeletonNode>,
}

/// The skeleton-nodes block of a jmad: under `definitions`, else under
/// `resources`.
pub open spec fn skeleton_block(layout: TagLayout, root: Instance) -> Option<TagBlockData> {
    match path_block(layout, root, top_path(true, 1)) {
        Some(b) => Some(b),
        None => path_block(layout, root, top_path(false, 1)),
    }
}

/// Node `n` as read from the skeleton-nodes element `e`.
pub open spec fn node_matches(layout: TagLayout, e: Instance, n: SkeletonNode) -> bool {
    &&& n.name@ == match read_string_id_spec(layout, e.0, "name"@) {
        Some(s) => s,
        None => Seq::empty(),
    }
    &&& n.first_child == read_block_index_spec(layout, e.0, e.1, "first child node index"@)
    &&& n.next_sibling == read_block_index_spec(layout, e.0, e.1, "next sibling node index"@)
    &&& n.parent == read_block_index_spec(layout, e.0, e.1, "parent node index"@)
}

impl Skeleton {
    /// The nodes of the jmad's `skeleton nodes` block (under
    /// `definitions`, or `resources` on older layouts); empty when the
    /// tag has none.
    pub fn from_tag(tag: &TagFile) -> (r: Self)
        requires
            tag.wf(),
            tag.tag_stream.data.elements@.len() > 0,
        ensures
            match skeleton_block(tag.tag_stream.layout, super::root_instance(*tag)) {
                None => r.nodes@.len() == 0,
                Some(b) => {
                    &&& r.nodes@.len() == b.elements@.len()
                    &&& forall|k: int|
                        0 <= k < b.elements@.len() ==> node_matches(
                            tag.tag_stream.layout,
                            element_at(tag.tag_stream.layout, b, k),
                            #[trigger] r.nodes@[k],
                        )
                },
            },
    {
        let root = tag.root();
        let ghost layout = tag.tag_stream.layout;
        assert(super::inst(root) == super::root_instance(*tag));
        let block = match top_field(root, true, 1) {
            Some(f) => f.as_block(),
            None => None,
        };
        let block = match block {
            Some(b) => b,
            None => match top_field(root, false, 1) {
                Some(f) => match f.as_block() {
                    Some(b) => b,
                    None => {
                        return Skeleton { nodes: Vec::new() };
                    },
                },
                None => {
                    return Skeleton { nodes: Vec::new() };
                },
            },
        };
        let mut nodes: Vec<SkeletonNode> = Vec::new();
        let n = block.len();
        let mut i: usize = 0;
        while i < n
            invariant
                i <= n,
                n == block.spec_data().elements@.len(),
                block.spec_layout() == layout,
                nodes@.len() == i,
                forall|k: int|
                    0 <= k < i ==> node_matches(layout, element_at(layout, block.spec_data(), k), #[trigger] nodes@[k]),
            decreases n - i,
        {
            match block.element(i) {
                Some(elem) => {
                    let name = match elem.read_string_id("name") {
                        Some(s) => s,
                        None => String::new(),
                    };
                    let first_child = elem.read_block_index("first child node index");
                    let next_sibling = elem.read_block_index("next sibling node index");
                    let parent = elem.read_block_index("parent node index");
                    nodes.push(SkeletonNode { name, first_child, next_sibling, parent });
                },
                None => {},
            }
            i = i + 1;
        }
        Skeleton { nodes }
    }

    /// Number of nodes (bones).
    pub fn len(&self) -> (r: usize)
        ensures
            r == self.nodes@.len(),
    {
        self.nodes.len()
    }

    /// Whether there are no nodes.
    pub fn is_empty(&self) -> (r: bool)
        ensures
            r == (self.nodes@.len() == 0),
    {
        self.nodes.len() == 0
    }
}

//================================================================================
// Bone resolution
//================================================================================

/// Where a bone's value for one component comes from.
#[derive(Debug, Clone, Copy, PartialEq, Eq, Structural)]
pub enum TrackSource {
    /// Node `i` of the static stream (its only frame).
    Static(usize),
    /// Node `i` of the animated stream (at the frame asked for).
    Animated(usize),
    /// No stream: the identity value.
    Identity,
}

/// Where each component of a bone comes from.
#[derive(Debug, Clone, Copy, PartialEq, Eq, Structural)]
pub struct BoneResolution {
    pub rotation: TrackSource,
    pub translation: TrackSource,
    pub scale: TrackSource,
}

/// The source of `bone` given a component's static and animated flags: a
/// bone flagged static takes the static node numbered by the static flags
/// set below it; else one flagged animated takes the animated node so
/// numbered; else the identity.
pub open spec fn source_of(bone: int, st: Seq<u32>, an: Seq<u32>) -> TrackSource {
    if word_bit(st, bone) {
        TrackSource::Static(set_bits_below(st, bone) as usize)
    } else if word_bit(an, bone) {
        TrackSource::Animated(set_bits_below(an, bone) as usize)
    } else {
        TrackSource::Identity
    }
}

/// The source of `bone` from one component's flag arrays ([`source_of`]).
pub fn pick_source(bone: usize, static_flags: &BitArray, animated_flags: &BitArray) -> (r: TrackSource)
    ensures
        r == source_of(bone as int, static_flags.words@, animated_flags.words@),
{
    if static_flags.bit(bone) {
        TrackSource::Static(static_flags.popcount_below(bone))
    } else if animated_flags.bit(bone) {
        TrackSource::Animated(animated_flags.popcount_below(bone))
    } else {
        TrackSource::Identity
    }
}

impl BoneResolution {
    /// Resolve every component of `bone` through the node flags; without
    /// flags every component reads static node `bone`.
    pub fn for_bone(bone: usize, flags: Option<&NodeFlags>) -> (r: Self)
        ensures
            match flags {
                None => r == (BoneResolution {
                    rotation: TrackSource::Static(bone),
                    translation: TrackSource::Static(bone),
                    scale: TrackSource::Static(bone),
                }),
                Some(f) => r == (BoneResolution {
                    rotation: source_of(bone as int, f.static_rotation.words@, f.animated_rotation.words@),
                    translation: source_of(bone as int, f.static_translation.words@, f.animated_translation.words@),
                    scale: source_of(bone as int, f.static_scale.words@, f.animated_scale.words@),
                }),
            },
    {
        match flags {
            None => BoneResolution {
                rotation: TrackSource::Static(bone),
                translation: TrackSource::Static(bone),
                scale: TrackSource::Static(bone),
            },
            Some(f) => BoneResolution {
                rotation: pick_source(bone, &f.static_rotation, &f.animated_rotation),
                translation: pick_source(bone, &f.static_translation, &f.animated_translation),
                scale: pick_source(bone, &f.static_scale, &f.animated_scale),
            },
        }
    }
}

/// Frames a JMA-family file holds for a pose of `codec_count` frames: one
/// more than the pose (a leading rest pose or a trailing held frame),
/// none for an empty pose.
pub open spec fn jma_frame_count(codec_count: int) -> int {
    if codec_count == 0 {
        0
    } else {
        codec_count + 1
    }
}

/// [`jma_frame_count`].
pub fn jma_total_frames(codec_count: usize) -> (r: usize)
    requires
        codec_count < usize::MAX,
    ensures
        r == jma_frame_count(codec_count as int),
{
    if codec_count == 0 {
        0
    } else {
        codec_count + 1
    }
}

} // verus!
