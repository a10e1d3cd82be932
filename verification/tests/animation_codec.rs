use blam_tags::animation::curve::{plan_curve, CurveStep};
use blam_tags::animation::codec::{
    animated_codec_stream_size, plan_fullframe, plan_keyframe, read_node_flags, AnimatedStream, FrameSample, TrackPlan,
};
use blam_tags::animation::{AnimatedStreamStatus, AnimationError, AnimationGroup, Codec, MovementKind, PackedDataSizes};

fn f32_at(blob: &[u8], off: usize) -> f32 {
    f32::from_le_bytes([blob[off], blob[off + 1], blob[off + 2], blob[off + 3]])
}

fn i16_unit(blob: &[u8], off: usize) -> f32 {
    i16::from_le_bytes([blob[off], blob[off + 1]]) as f32 / i16::MAX as f32
}

fn key(s: &FrameSample) -> usize {
    match s {
        FrameSample::Key(o) => *o,
        other => panic!("expected a key, got {:?}", other),
    }
}

fn build_static(n_rot: u8, n_trans: u8, n_scale: u8) -> Vec<u8> {
    let rot_start = 32usize;
    let trans_start = rot_start + (n_rot as usize) * 8;
    let scale_start = trans_start + (n_trans as usize) * 12;
    let total = scale_start + (n_scale as usize) * 4;
    let mut out = vec![0u8; total];
    out[0] = 1;
    out[1] = n_rot;
    out[2] = n_trans;
    out[3] = n_scale;
    out[12..16].copy_from_slice(&(trans_start as u32).to_le_bytes());
    out[16..20].copy_from_slice(&(scale_start as u32).to_le_bytes());
    out[20..24].copy_from_slice(&8u32.to_le_bytes());
    out[24..28].copy_from_slice(&12u32.to_le_bytes());
    out[28..32].copy_from_slice(&4u32.to_le_bytes());
    out
}

fn build_animated_8byte(n_rot: u8, n_trans: u8, n_scale: u8, frame_count: u16) -> Vec<u8> {
    let f = frame_count as usize;
    let rot_start = 32usize;
    let trans_start = rot_start + (n_rot as usize) * 8 * f;
    let scale_start = trans_start + (n_trans as usize) * 12 * f;
    let total = scale_start + (n_scale as usize) * 4 * f;
    let mut out = vec![0u8; total];
    out[0] = 3;
    out[1] = n_rot;
    out[2] = n_trans;
    out[3] = n_scale;
    out[12..16].copy_from_slice(&(trans_start as u32).to_le_bytes());
    out[16..20].copy_from_slice(&(scale_start as u32).to_le_bytes());
    out[20..24].copy_from_slice(&((8 * f) as u32).to_le_bytes());
    out[24..28].copy_from_slice(&((12 * f) as u32).to_le_bytes());
    out[28..32].copy_from_slice(&((4 * f) as u32).to_le_bytes());
    out
}

fn build_animated_raw_quat(n_rot: u8, frame_count: u16) -> Vec<u8> {
    let f = frame_count as usize;
    let trans_start = 32 + (n_rot as usize) * 16 * f;
    let mut out = vec![0u8; trans_start];
    out[0] = 8;
    out[1] = n_rot;
    out[12..16].copy_from_slice(&(trans_start as u32).to_le_bytes());
    out[16..20].copy_from_slice(&(trans_start as u32).to_le_bytes());
    out[20..24].copy_from_slice(&((16 * f) as u32).to_le_bytes());
    out
}

struct Keys<'a> {
    rot_packs: &'a [(u32, u32)],
    rot_keys: &'a [(u8, [i16; 4])],
    trans_packs: &'a [(u32, u32)],
    trans_keys: &'a [(u8, [f32; 3])],
}

fn build_keyframe_byte(k: Keys) -> Vec<u8> {
    let packed_count = k.rot_packs.len() + k.trans_packs.len();
    let packed_start = 48;
    let rot_time_start = packed_start + packed_count * 4;
    let trans_time_start = rot_time_start + k.rot_keys.len();
    let scale_time_start = trans_time_start + k.trans_keys.len();
    let rot_payload_start = scale_time_start;
    let trans_payload_start = rot_payload_start + k.rot_keys.len() * 8;
    let scale_payload_start = trans_payload_start + k.trans_keys.len() * 12;
    let mut out = vec![0u8; scale_payload_start];
    out[0] = 4;
    out[1] = k.rot_packs.len() as u8;
    out[2] = k.trans_packs.len() as u8;
    out[20..24].copy_from_slice(&(rot_time_start as u32).to_le_bytes());
    out[24..28].copy_from_slice(&(trans_time_start as u32).to_le_bytes());
    out[28..32].copy_from_slice(&(scale_time_start as u32).to_le_bytes());
    out[32..36].copy_from_slice(&(rot_payload_start as u32).to_le_bytes());
    out[36..40].copy_from_slice(&(trans_payload_start as u32).to_le_bytes());
    out[40..44].copy_from_slice(&(scale_payload_start as u32).to_le_bytes());
    for (idx, &(t, c)) in k.rot_packs.iter().chain(k.trans_packs.iter()).enumerate() {
        let pd = (t << 12) | (c & 0xFFF);
        out[packed_start + idx * 4..packed_start + idx * 4 + 4].copy_from_slice(&pd.to_le_bytes());
    }
    for (i, (t, _)) in k.rot_keys.iter().enumerate() {
        out[rot_time_start + i] = *t;
    }
    for (i, (t, _)) in k.trans_keys.iter().enumerate() {
        out[trans_time_start + i] = *t;
    }
    for (i, (_, q)) in k.rot_keys.iter().enumerate() {
        for (c, v) in q.iter().enumerate() {
            let off = rot_payload_start + i * 8 + c * 2;
            out[off..off + 2].copy_from_slice(&v.to_le_bytes());
        }
    }
    for (i, (_, p)) in k.trans_keys.iter().enumerate() {
        for (c, v) in p.iter().enumerate() {
            let off = trans_payload_start + i * 12 + c * 4;
            out[off..off + 4].copy_from_slice(&v.to_le_bytes());
        }
    }
    out
}

fn lerp_x(blob: &[u8], s: &FrameSample) -> f32 {
    match s {
        FrameSample::Key(o) => f32_at(blob, *o),
        FrameSample::Blend { from, to, t_from, t_to, frame } => {
            let a = f32_at(blob, *from);
            let b = f32_at(blob, *to);
            let t = if t_to > t_from { (*frame as f32 - *t_from as f32) / (*t_to as f32 - *t_from as f32) } else { 0.0 };
            a + (b - a) * t
        }
        FrameSample::Identity => 0.0,
    }
}

#[test]
fn empty_animation_decodes() {
    let blob = build_static(0, 0, 0);
    let plan: TrackPlan = plan_fullframe(&blob, Codec::UncompressedStatic, 1, true).unwrap();
    assert_eq!(plan.frame_count, 1);
    assert!(plan.rotations.is_empty());
    assert!(plan.translations.is_empty());
    assert!(plan.scales.is_empty());
}

#[test]
fn one_node_identity_quaternion() {
    let mut blob = build_static(1, 0, 0);
    blob[38..40].copy_from_slice(&i16::MAX.to_le_bytes());
    let plan = plan_fullframe(&blob, Codec::UncompressedStatic, 1, true).unwrap();
    let off = key(&plan.rotations[0][0]);
    assert_eq!(off, 32);
    assert!(i16_unit(&blob, off).abs() < 1e-6);
    assert!((i16_unit(&blob, off + 6) - 1.0).abs() < 1e-6);
}

#[test]
fn translation_uses_header_offset_not_implicit() {
    let mut blob = build_static(2, 1, 0);
    let trans_off = u32::from_le_bytes(blob[12..16].try_into().unwrap()) as usize;
    blob[trans_off..trans_off + 4].copy_from_slice(&1.5f32.to_le_bytes());
    blob[trans_off + 4..trans_off + 8].copy_from_slice(&(-2.0f32).to_le_bytes());
    blob[trans_off + 8..trans_off + 12].copy_from_slice(&3.25f32.to_le_bytes());
    let plan = plan_fullframe(&blob, Codec::UncompressedStatic, 1, true).unwrap();
    let off = key(&plan.translations[0][0]);
    assert_eq!(off, trans_off);
    assert_eq!(f32_at(&blob, off), 1.5);
    assert_eq!(f32_at(&blob, off + 4), -2.0);
    assert_eq!(f32_at(&blob, off + 8), 3.25);
}

#[test]
fn animated_raw_quat_per_frame() {
    let mut blob = build_animated_raw_quat(1, 2);
    blob[44..48].copy_from_slice(&1.0f32.to_le_bytes());
    for off in [48, 52, 56, 60] {
        blob[off..off + 4].copy_from_slice(&0.5f32.to_le_bytes());
    }
    let plan = plan_fullframe(&blob, Codec::BlendScreen, 2, false).unwrap();
    assert_eq!(plan.codec, Codec::BlendScreen);
    assert_eq!(plan.frame_count, 2);
    assert_eq!(key(&plan.rotations[0][0]), 32);
    assert_eq!(key(&plan.rotations[0][1]), 48);
    assert!((f32_at(&blob, 32 + 12) - 1.0).abs() < 1e-6);
    assert!((f32_at(&blob, 48) - 0.5).abs() < 1e-6);
}

#[test]
fn animated_8byte_per_frame_quaternions() {
    let mut blob = build_animated_8byte(1, 0, 0, 3);
    blob[38..40].copy_from_slice(&i16::MAX.to_le_bytes());
    blob[40..42].copy_from_slice(&i16::MAX.to_le_bytes());
    blob[50..52].copy_from_slice(&i16::MAX.to_le_bytes());
    let plan = plan_fullframe(&blob, Codec::EightByteQuantizedRotationOnly, 3, true).unwrap();
    assert_eq!(plan.codec, Codec::EightByteQuantizedRotationOnly);
    assert_eq!(plan.rotations.len(), 1);
    assert_eq!(plan.rotations[0].len(), 3);
    assert!((i16_unit(&blob, key(&plan.rotations[0][0]) + 6) - 1.0).abs() < 1e-6);
    assert!((i16_unit(&blob, key(&plan.rotations[0][1])) - 1.0).abs() < 1e-6);
    assert!((i16_unit(&blob, key(&plan.rotations[0][2]) + 2) - 1.0).abs() < 1e-6);
}

#[test]
fn truncated_blob_errors() {
    let blob = vec![0u8; 10];
    let err = plan_fullframe(&blob, Codec::UncompressedStatic, 1, true).unwrap_err();
    assert!(matches!(err, AnimationError::TruncatedHeader { want: 32, have: 10, .. }));
}

#[test]
fn fullframe_block_past_end_is_truncated_payload() {
    let mut blob = build_static(1, 0, 0);
    blob[1] = 2;
    let err = plan_fullframe(&blob, Codec::UncompressedStatic, 1, true).unwrap_err();
    assert!(matches!(err, AnimationError::TruncatedPayload { want_end: 48, blob_size: 40, .. }));
}

#[test]
fn keyframe_single_key_constant() {
    let blob = build_keyframe_byte(Keys {
        rot_packs: &[(0, 1)],
        rot_keys: &[(0, [0, 0, 0, i16::MAX])],
        trans_packs: &[],
        trans_keys: &[],
    });
    let plan = plan_keyframe(&blob, Codec::ByteKeyframeLightlyQuantized, 5, 1).unwrap();
    assert_eq!(plan.rotations.len(), 1);
    assert_eq!(plan.rotations[0].len(), 5);
    for s in &plan.rotations[0] {
        assert!((i16_unit(&blob, key(s) + 6) - 1.0).abs() < 1e-6);
    }
}

#[test]
fn keyframe_two_keys_lerp() {
    let blob = build_keyframe_byte(Keys {
        rot_packs: &[],
        rot_keys: &[],
        trans_packs: &[(0, 2)],
        trans_keys: &[(0, [0.0, 0.0, 0.0]), (4, [4.0, 0.0, 0.0])],
    });
    let plan = plan_keyframe(&blob, Codec::ByteKeyframeLightlyQuantized, 5, 1).unwrap();
    let t = &plan.translations[0];
    assert!(matches!(t[2], FrameSample::Blend { t_from: 0, t_to: 4, frame: 2, .. }));
    assert!((lerp_x(&blob, &t[0]) - 0.0).abs() < 1e-6);
    assert!((lerp_x(&blob, &t[2]) - 2.0).abs() < 1e-6);
    assert!((lerp_x(&blob, &t[4]) - 4.0).abs() < 1e-6);
}

#[test]
fn keyframe_frames_before_first_key_clamp() {
    let blob = build_keyframe_byte(Keys {
        rot_packs: &[],
        rot_keys: &[],
        trans_packs: &[(0, 2)],
        trans_keys: &[(2, [2.0, 0.0, 0.0]), (4, [4.0, 0.0, 0.0])],
    });
    let plan = plan_keyframe(&blob, Codec::ByteKeyframeLightlyQuantized, 5, 1).unwrap();
    let t = &plan.translations[0];
    assert!(matches!(t[0], FrameSample::Key(_)));
    assert!(matches!(t[1], FrameSample::Key(_)));
    let xs: Vec<f32> = t.iter().map(|s| lerp_x(&blob, s)).collect();
    assert_eq!(xs, vec![2.0, 2.0, 2.0, 3.0, 4.0]);
}

#[test]
fn keyframe_packed_data_skips_to_correct_node() {
    let blob = build_keyframe_byte(Keys {
        rot_packs: &[(0, 1), (1, 1)],
        rot_keys: &[(0, [0, 0, 0, i16::MAX]), (0, [i16::MAX, 0, 0, 0])],
        trans_packs: &[],
        trans_keys: &[],
    });
    let plan = plan_keyframe(&blob, Codec::ByteKeyframeLightlyQuantized, 1, 1).unwrap();
    assert!((i16_unit(&blob, key(&plan.rotations[0][0]) + 6) - 1.0).abs() < 1e-6);
    assert!((i16_unit(&blob, key(&plan.rotations[1][0])) - 1.0).abs() < 1e-6);
}

#[test]
fn keyframe_clamp_past_last_key() {
    let blob = build_keyframe_byte(Keys {
        rot_packs: &[],
        rot_keys: &[],
        trans_packs: &[(0, 2)],
        trans_keys: &[(0, [0.0, 0.0, 0.0]), (2, [2.0, 0.0, 0.0])],
    });
    let plan = plan_keyframe(&blob, Codec::ByteKeyframeLightlyQuantized, 5, 1).unwrap();
    let last = plan.translations[0][2];
    assert!(matches!(last, FrameSample::Key(_)));
    assert_eq!(plan.translations[0][3], last);
    assert_eq!(plan.translations[0][4], last);
    assert!((lerp_x(&blob, &plan.translations[0][4]) - 2.0).abs() < 1e-6);
}

#[test]
fn keyframe_node_without_keys_is_identity() {
    let blob = build_keyframe_byte(Keys {
        rot_packs: &[(0, 0)],
        rot_keys: &[],
        trans_packs: &[],
        trans_keys: &[],
    });
    let plan = plan_keyframe(&blob, Codec::WordKeyframeLightlyQuantized, 3, 2).unwrap();
    assert_eq!(plan.rotations[0], vec![FrameSample::Identity; 3]);
}

#[test]
fn keyframe_errors_on_short_streams() {
    let err = plan_keyframe(&[4u8; 20], Codec::ByteKeyframeLightlyQuantized, 1, 1).unwrap_err();
    assert!(matches!(err, AnimationError::TruncatedHeader { want: 48, have: 20, .. }));
    let mut blob = vec![0u8; 48];
    blob[1] = 2;
    let err = plan_keyframe(&blob, Codec::ByteKeyframeLightlyQuantized, 1, 1).unwrap_err();
    assert!(matches!(err, AnimationError::TruncatedPayload { want_end: 56, blob_size: 48, .. }));
}

#[test]
fn stream_size_of_fullframe_and_keyframe() {
    let blob = build_static(2, 1, 1);
    assert_eq!(animated_codec_stream_size(&blob, Codec::UncompressedStatic), Some(32 + 16 + 12 + 4));
    let kf = build_keyframe_byte(Keys {
        rot_packs: &[],
        rot_keys: &[],
        trans_packs: &[(0, 2)],
        trans_keys: &[(0, [0.0, 0.0, 0.0]), (2, [2.0, 0.0, 0.0])],
    });
    assert_eq!(animated_codec_stream_size(&kf, Codec::ByteKeyframeLightlyQuantized), Some(kf.len()));
    assert_eq!(animated_codec_stream_size(&kf, Codec::Curve), None);
    assert_eq!(animated_codec_stream_size(&[0u8; 8], Codec::UncompressedAnimated), None);
}

#[test]
fn node_flags_split_into_triplets() {
    let mut blob = vec![0u8; 4 + 12 + 24];
    blob[4] = 0b1;
    blob[8] = 0b10;
    blob[12] = 0b100;
    blob[16] = 0xFF;
    let flags = read_node_flags(&blob, 4, 12, 24).unwrap();
    assert_eq!(flags.static_rotation.words, vec![1]);
    assert_eq!(flags.static_translation.words, vec![2]);
    assert_eq!(flags.static_scale.words, vec![4]);
    assert_eq!(flags.animated_rotation.words, vec![0xFF, 0]);
    assert!(read_node_flags(&blob, 4, 0, 0).is_none());
    assert!(read_node_flags(&blob, 4, 10, 0).is_none());
    assert!(read_node_flags(&blob, 8, 12, 24).is_none());
}

fn group<'a>(blob: &'a [u8], codec_byte: Option<u8>, sizes: Option<PackedDataSizes>) -> AnimationGroup<'a> {
    AnimationGroup {
        index: 0,
        name: None,
        animation_type: None,
        frame_info_type: Some("dx,dy".to_string()),
        frame_count: 2,
        node_count: 1,
        node_list_checksum: 0,
        resource_group: 0,
        resource_group_member: 0,
        checksum: None,
        codec_frame_count: Some(2),
        movement_type: None,
        data_sizes: sizes,
        codec_byte,
        blob,
    }
}

#[test]
fn decode_plan_splits_static_animated_and_movement() {
    let mut blob = build_static(1, 0, 0);
    blob.extend_from_slice(&build_animated_8byte(1, 0, 0, 2));
    blob.extend_from_slice(&[0u8; 16]);
    let sizes = PackedDataSizes {
        fields: vec![
            ("default_data".to_string(), 40),
            ("compressed_data".to_string(), 48),
            ("static_node_flags".to_string(), 0),
            ("animated_node_flags".to_string(), 0),
            ("movement_data".to_string(), 16),
            ("pill_offset_data".to_string(), 0),
        ],
    };
    let g = group(&blob, Some(1), Some(sizes));
    let plan = g.decode_plan().unwrap();
    assert_eq!(plan.frame_count, 2);
    assert!(plan.static_tracks.is_some());
    assert_eq!((plan.animated_start, plan.animated_end), (40, 104));
    match &plan.animated {
        AnimatedStream::Planned(p) => {
            assert_eq!(p.codec, Codec::EightByteQuantizedRotationOnly);
            assert_eq!(p.rotations[0], vec![FrameSample::Key(32), FrameSample::Key(40)]);
        }
        other => panic!("unexpected animated stream {:?}", other),
    }
    assert_eq!(plan.animated.status(), AnimatedStreamStatus::Decoded);
    assert!(plan.node_flags.is_none());
    assert_eq!(plan.movement.kind, MovementKind::DxDy);
    assert_eq!(plan.movement.frame_offsets, vec![88, 96]);
}

#[test]
fn decode_plan_errors_and_unknown_streams() {
    let blob = build_static(0, 0, 0);
    assert!(matches!(group(&blob, None, None).decode_plan(), Err(AnimationError::NoCodecPayload)));
    assert!(matches!(group(&blob, Some(12), None).decode_plan(), Err(AnimationError::UnknownCodec(12))));
    let mut odd = vec![0u8; 8];
    odd[0] = 200;
    let plan = group(&odd, Some(2), None).decode_plan().unwrap();
    assert!(plan.static_tracks.is_none());
    assert!(matches!(plan.animated, AnimatedStream::Unknown(200)));
    assert_eq!(plan.movement.kind, MovementKind::NoMovement);
    let mut short = vec![0u8; 8];
    short[0] = 3;
    let plan = group(&short, Some(3), None).decode_plan().unwrap();
    assert!(matches!(plan.animated, AnimatedStream::Unsupported(Codec::EightByteQuantizedRotationOnly)));
}

fn curve_blob() -> Vec<u8> {
    let mut b = vec![0u8; 104];
    b[0] = 9;
    b[1] = 1; // one rotation node
    b[3] = 1; // one scale node
    b[16..20].copy_from_slice(&76u32.to_le_bytes()); // scale table, from the payload
    b[32..36].copy_from_slice(&40u32.to_le_bytes()); // rotation node 0
    // rotation node at 40: one key delta of 2 frames, keyed.
    b[42..44].copy_from_slice(&1u16.to_le_bytes());
    b[48] = 2;
    // scale table at 76 and node at 80: a value per frame.
    b[76..80].copy_from_slice(&80u32.to_le_bytes());
    b[84] = 1;
    b
}

#[test]
fn curve_plan_walks_segments_and_values() {
    let blob = curve_blob();
    let plan = plan_curve(&blob, Codec::Curve, 4, false).unwrap();
    assert_eq!(plan.rotations.len(), 1);
    assert_eq!(plan.rotations[0].start, 40);
    assert_eq!(
        plan.rotations[0].steps,
        vec![
            CurveStep::Segment { p1: 49, tangent: 55, p2: 59, current: 0, next: 2 },
            CurveStep::Hold,
            CurveStep::Segment { p1: 59, tangent: 65, p2: 69, current: 2, next: 3 },
            CurveStep::Hold,
        ]
    );
    assert!(plan.translations.is_empty());
    assert_eq!(plan.scales[0].start, 80);
    assert_eq!(
        plan.scales[0].steps,
        vec![CurveStep::Value(96), CurveStep::Value(98), CurveStep::Value(100), CurveStep::Value(102)]
    );
}

#[test]
fn curve_plan_reports_first_read_past_end() {
    let blob = curve_blob();
    let err = plan_curve(&blob[..103], Codec::Curve, 4, false).unwrap_err();
    assert!(matches!(err, AnimationError::TruncatedPayload { codec: Codec::Curve, want_end: 104, blob_size: 103 }));
    let err = plan_curve(&blob[..20], Codec::RevisedCurve, 4, true).unwrap_err();
    assert!(matches!(err, AnimationError::TruncatedHeader { codec: Codec::RevisedCurve, want: 32, have: 20 }));
}
