use blam_tags::bitmap::dds::decode_dxn_mono_alpha;
use blam_tags::bitmap::decode::decode_to_rgba8;
use blam_tags::bitmap::BitmapFormat;
use blam_tags::fields::{format_group_tag, parse_group_tag, TagReferenceData};

#[test]
fn group_tag_format_inverts_parse() {
    for s in ["bipd", "mo", "jpt!", "a", "ti]["] {
        assert_eq!(format_group_tag(parse_group_tag(s).unwrap()), s);
    }
    assert_eq!(format_group_tag(u32::from_be_bytes(*b"mo  ")), "mo");
}

#[test]
fn reference_payload_roundtrips() {
    let mut p = b"tibm".to_vec();
    p.extend_from_slice(b"objects\\crate");
    assert_eq!(TagReferenceData::from_bytes(&p).to_bytes(), p);
    let q = vec![1u8, 2, 3];
    assert!(TagReferenceData::from_bytes(&q).group_tag_and_name.is_none());
    assert!(TagReferenceData::from_bytes(&q).to_bytes().is_empty());
}

#[test]
fn surface_bytes_add_one_level_at_a_time() {
    assert_eq!(BitmapFormat::Dxt1.surface_bytes(8, 8, 0), 0);
    assert_eq!(BitmapFormat::Dxt1.surface_bytes(8, 8, 4), 56);
    for n in 0..4u32 {
        let w = std::cmp::max(1, 8u32 >> n);
        assert_eq!(
            BitmapFormat::Dxt1.surface_bytes(8, 8, n + 1),
            BitmapFormat::Dxt1.surface_bytes(8, 8, n) + BitmapFormat::Dxt1.level_bytes(w, w)
        );
    }
}

#[test]
fn mono_alpha_single_level_matches_generic_decoder() {
    let mut input = vec![0u8; 32];
    input[0] = 0xA0;
    input[1] = 0x20;
    input[2] = 0x55;
    input[8] = 0x10;
    input[9] = 0xF0;
    input[12] = 0x1B;
    input[16] = 0x33;
    input[24] = 0x77;
    let a = decode_dxn_mono_alpha(&input, 8, 4, 1, 1);
    let b = decode_to_rgba8(BitmapFormat::DxnMonoAlpha, 8, 4, &input).unwrap();
    assert_eq!(a.len(), 8 * 4 * 4);
    assert_eq!(a, b);
}
