use blam_tags::animation::graph::{
    AnimationGraph, GraphAction, GraphActionAnimation, GraphMode, GraphWeaponClass, GraphWeaponType,
};
use blam_tags::animation::pose::{jma_total_frames, pick_source, BoneResolution, TrackSource};
use blam_tags::animation::{
    AnimationGroup, BitArray, Codec, JmaKind, MovementKind, NodeFlags, PackedDataSizes, SizeLayout,
};
use blam_tags::bitmap::xbox360::{swap_byte_pairs, xg_address_2d_tiled_offset};

fn action(label: &str, graph_index: i16, animation_index: i16) -> GraphAction {
    GraphAction { label: label.to_string(), animation: GraphActionAnimation { graph_index, animation_index } }
}

fn weapon_type(label: &str, actions: Vec<GraphAction>) -> GraphWeaponType {
    GraphWeaponType { label: label.to_string(), actions, overlays: vec![], transitions: vec![] }
}

fn sample_graph() -> AnimationGraph {
    AnimationGraph {
        modes: vec![
            GraphMode {
                label: "any".to_string(),
                weapon_classes: vec![GraphWeaponClass {
                    label: "any".to_string(),
                    weapon_types: vec![weapon_type("any", vec![action("idle", -1, 0), action("open", -1, 1)])],
                }],
            },
            GraphMode {
                label: "combat".to_string(),
                weapon_classes: vec![GraphWeaponClass {
                    label: "rifle".to_string(),
                    weapon_types: vec![weapon_type("any", vec![]), weapon_type("fire", vec![action("idle", 2, 7)])],
                }],
            },
        ],
    }
}

#[test]
fn find_action_exact_and_any_fallback() {
    let g = sample_graph();
    let a = g.find_action("any", "any", "any", "open").unwrap();
    assert_eq!(a.animation_index, 1);
    assert!(a.is_local());
    // "stand" falls back to the "any" mode.
    let a = g.find_action("stand", "pistol", "whatever", "idle").unwrap();
    assert_eq!(a.animation_index, 0);
    let a = g.find_action("combat", "rifle", "fire", "idle").unwrap();
    assert_eq!((a.graph_index, a.animation_index), (2, 7));
    assert!(!a.is_local());
    // The action itself must match exactly.
    assert!(g.find_action("any", "any", "any", "run").is_none());
    // "rifle" has no "any" weapon type match for "melee": falls back to "any" type with no actions.
    assert!(g.find_action("combat", "rifle", "melee", "idle").is_none());
}

#[test]
fn first_action_skips_empty_weapon_types() {
    let g = sample_graph();
    assert_eq!(g.first_action().unwrap().animation_index, 0);
    let g2 = AnimationGraph {
        modes: vec![GraphMode {
            label: "combat".to_string(),
            weapon_classes: vec![GraphWeaponClass {
                label: "rifle".to_string(),
                weapon_types: vec![weapon_type("any", vec![]), weapon_type("fire", vec![action("idle", 2, 7)])],
            }],
        }],
    };
    assert_eq!(g2.first_action().unwrap().animation_index, 7);
    assert!(AnimationGraph { modes: vec![] }.first_action().is_none());
}

#[test]
fn bit_array_bits_and_ranks() {
    let bits = BitArray::from_bytes(&[0b1010_0101, 0, 0, 0x80, 0xFF]);
    assert_eq!(bits.words, vec![0x8000_00A5]);
    assert!(bits.bit(0));
    assert!(!bits.bit(1));
    assert!(bits.bit(31));
    assert!(!bits.bit(32));
    assert!(!bits.bit(1000));
    assert_eq!(bits.popcount_below(0), 0);
    assert_eq!(bits.popcount_below(3), 2);
    assert_eq!(bits.popcount_below(32), 5);
    assert_eq!(bits.popcount_below(500), 5);
}

#[test]
fn codec_bytes_map_to_codecs() {
    assert_eq!(Codec::from_byte(0), Some(Codec::NoCompression));
    assert_eq!(Codec::from_byte(3), Some(Codec::EightByteQuantizedRotationOnly));
    assert_eq!(Codec::from_byte(11), Some(Codec::SharedStatic));
    assert_eq!(Codec::from_byte(12), None);
}

#[test]
fn movement_kinds_and_sizes() {
    assert_eq!(MovementKind::from_schema_name("dx,dy,dyaw"), MovementKind::DxDyDyaw);
    assert_eq!(MovementKind::from_schema_name("bogus"), MovementKind::NoMovement);
    assert_eq!(MovementKind::DxDyDzDyaw.bytes_per_frame(), 16);
    assert_eq!(MovementKind::NoMovement.bytes_per_frame(), 0);
    assert_eq!(MovementKind::DxDyDzDangleAxis.bytes_per_frame(), 24);
}

#[test]
fn packed_sizes_total_get_layout() {
    let h3 = PackedDataSizes {
        fields: vec![("static_node_flags".to_string(), 4), ("default_data".to_string(), 40), ("compressed_data".to_string(), 100)],
    };
    assert_eq!(h3.total(), 144);
    assert_eq!(h3.get("default_data"), 40);
    assert_eq!(h3.get("missing"), 0);
    assert_eq!(h3.layout(), SizeLayout::H3);
    let reach = PackedDataSizes { fields: vec![("static_node_flags".to_string(), 8), ("blend_screen_data".to_string(), 0)] };
    assert_eq!(reach.layout(), SizeLayout::Reach);
}

#[test]
fn animated_codec_byte_follows_the_static_stream() {
    let blob = [1u8, 0, 0, 0, 3, 9];
    let group = AnimationGroup {
        index: 0,
        name: Some("idle".to_string()),
        animation_type: Some("base".to_string()),
        frame_info_type: Some("dx,dy".to_string()),
        frame_count: 10,
        node_count: 2,
        node_list_checksum: 0,
        resource_group: -1,
        resource_group_member: -1,
        checksum: None,
        codec_frame_count: None,
        movement_type: Some("dx,dy,dyaw".to_string()),
        data_sizes: Some(PackedDataSizes { fields: vec![("default_data".to_string(), 4)] }),
        codec_byte: Some(1),
        blob: &blob,
    };
    assert_eq!(group.animated_codec_byte(), Some(3));
    assert!(group.movement_type_mismatch());
}

#[test]
fn jma_kind_from_metadata() {
    assert_eq!(JmaKind::from_metadata(Some("overlay"), Some("dx,dy"), true), JmaKind::Jmo);
    assert_eq!(JmaKind::from_metadata(Some("base"), Some("dx,dy"), true), JmaKind::Jmw);
    assert_eq!(JmaKind::from_metadata(None, Some("dx,dy,dyaw"), false), JmaKind::Jmt);
    assert_eq!(JmaKind::from_metadata(None, None, false), JmaKind::Jmm);
    assert_eq!(JmaKind::Jmz.extension(), "JMZ");
}

#[test]
fn xenos_tiling_and_byte_swaps() {
    assert_eq!(xg_address_2d_tiled_offset(0, 0, 32, 8), 0);
    assert_eq!(xg_address_2d_tiled_offset(1, 0, 32, 8), 1);
    let mut buf = [1u8, 2, 3, 4, 5];
    swap_byte_pairs(&mut buf);
    assert_eq!(buf, [2, 1, 4, 3, 5]);
}

#[test]
fn bone_resolution_follows_node_flags() {
    let st = BitArray { words: vec![0b0101] };
    let an = BitArray { words: vec![0b1010] };
    assert_eq!(pick_source(0, &st, &an), TrackSource::Static(0));
    assert_eq!(pick_source(1, &st, &an), TrackSource::Animated(0));
    assert_eq!(pick_source(2, &st, &an), TrackSource::Static(1));
    assert_eq!(pick_source(3, &st, &an), TrackSource::Animated(1));
    assert_eq!(pick_source(4, &st, &an), TrackSource::Identity);
    let none = BoneResolution::for_bone(7, None);
    assert_eq!(none.rotation, TrackSource::Static(7));
    assert_eq!(none.scale, TrackSource::Static(7));
    let flags = NodeFlags {
        static_rotation: BitArray { words: vec![0b1] },
        static_translation: BitArray { words: vec![] },
        static_scale: BitArray { words: vec![] },
        animated_rotation: BitArray { words: vec![] },
        animated_translation: BitArray { words: vec![0b1] },
        animated_scale: BitArray { words: vec![] },
    };
    let r = BoneResolution::for_bone(0, Some(&flags));
    assert_eq!(r.rotation, TrackSource::Static(0));
    assert_eq!(r.translation, TrackSource::Animated(0));
    assert_eq!(r.scale, TrackSource::Identity);
    assert_eq!(jma_total_frames(0), 0);
    assert_eq!(jma_total_frames(10), 11);
}
