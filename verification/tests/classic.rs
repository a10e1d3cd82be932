use blam_tags::classic::{
    classic_checksum, classic_roundtrip, read_classic_tag_file, write_classic_tag, ClassicEngine, ClassicError, ClassicHeader,
};
use blam_tags::bytes::Endian;
use blam_tags::fields::TagFieldType;
use blam_tags::layout::{
    TagBlockLayout, TagFieldLayout, TagFieldTypeLayout, TagLayout, TagLayoutHeader, TagLayoutString, TagStructLayout,
};

#[test]
fn checksum_matches_crc32_without_final_xor() {
    // Standard CRC32("123456789") = 0xCBF43926 (with final inversion).
    // The classic algorithm omits the final XOR, so the result is the
    // standard value XOR 0xFFFFFFFF.
    assert_eq!(classic_checksum(b"123456789"), 0xCBF4_3926 ^ 0xFFFF_FFFF);
    // Empty input returns the init value (no bytes processed).
    assert_eq!(classic_checksum(b""), 0xFFFF_FFFF);
}

#[test]
fn checksum_of_one_zero_byte() {
    // One step from the init value: table[0xFF] ^ 0x00FFFFFF.
    assert_eq!(classic_checksum(&[0u8]), 0x2D02_EF8D ^ 0x00FF_FFFF);
}

// Root struct (44 bytes): count (long) @0, blob (data) @4, items
// (block of item) @24, ref (tag reference) @28 (16 bytes).
// Item struct (4 bytes): value (long) @0.
fn classic_layout() -> TagLayout {
    let names = ["count", "blob", "items", "ref", "value", "root", "item", ""];
    let strings = names
        .iter()
        .enumerate()
        .map(|(i, n)| TagLayoutString { offset: i as u32, text: n.to_string() })
        .collect();
    let field_types = vec![
        TagFieldTypeLayout { name_offset: 0, size: 4, needs_sub_chunk: 0 },
        TagFieldTypeLayout { name_offset: 0, size: 20, needs_sub_chunk: 1 },
        TagFieldTypeLayout { name_offset: 0, size: 12, needs_sub_chunk: 1 },
        TagFieldTypeLayout { name_offset: 0, size: 16, needs_sub_chunk: 1 },
        TagFieldTypeLayout { name_offset: 0, size: 0, needs_sub_chunk: 0 },
    ];
    let f = |name: u32, ty: u32, def: u32, off: u32, t: TagFieldType| TagFieldLayout {
        name_offset: name,
        type_index: ty,
        definition: def,
        offset: off,
        field_type: t,
    };
    TagLayout {
        header: TagLayoutHeader { tag_group_block_index: 0 },
        fields: vec![
            f(0, 0, 0, 0, TagFieldType::LongInteger),
            f(1, 1, 0, 4, TagFieldType::Data),
            f(2, 2, 1, 24, TagFieldType::Block),
            f(3, 3, 0, 36, TagFieldType::TagReference),
            f(7, 4, 0, 52, TagFieldType::Terminator),
            f(4, 0, 0, 0, TagFieldType::LongInteger),
            f(7, 4, 0, 4, TagFieldType::Terminator),
        ],
        struct_layouts: vec![
            TagStructLayout { index: 0, name_offset: 5, first_field_index: 0, size: 52 },
            TagStructLayout { index: 1, name_offset: 6, first_field_index: 5, size: 4 },
        ],
        block_layouts: vec![TagBlockLayout { index: 0, struct_index: 0 }, TagBlockLayout { index: 1, struct_index: 1 }],
        array_layouts: vec![],
        resource_layouts: vec![],
        field_types,
        string_lists: vec![],
        string_offsets: vec![],
        strings,
    }
}

/// A Halo CE body (big-endian): root fixed bytes, then the blob, the
/// block's element bytes, then the reference path.
fn ce_body() -> Vec<u8> {
    let mut root = vec![0u8; 52];
    root[0..4].copy_from_slice(&42u32.to_be_bytes());
    root[4..8].copy_from_slice(&3u32.to_be_bytes());
    root[24..28].copy_from_slice(&2u32.to_be_bytes());
    root[28..32].copy_from_slice(&0xDEAD_BEEFu32.to_be_bytes());
    root[36..40].copy_from_slice(b"bitm");
    root[44..48].copy_from_slice(&5u32.to_be_bytes());
    let mut body = root;
    body.extend_from_slice(&[9, 8, 7]);
    body.extend_from_slice(&11u32.to_be_bytes());
    body.extend_from_slice(&22u32.to_be_bytes());
    body.extend_from_slice(b"a\\b\\c\0");
    body
}

fn ce_file(body: &[u8]) -> Vec<u8> {
    let mut bytes = vec![0u8; 64];
    bytes[36..40].copy_from_slice(b"bitm");
    bytes[40..44].copy_from_slice(&0x1234_5678u32.to_be_bytes());
    bytes[56..58].copy_from_slice(&7u16.to_be_bytes());
    bytes[60..64].copy_from_slice(b"blam");
    bytes.extend_from_slice(body);
    bytes
}

#[test]
fn ce_body_roundtrips_byte_exact() {
    let body = ce_body();
    let out = classic_roundtrip(&body, &classic_layout(), ClassicEngine::HaloCe).unwrap();
    assert_eq!(out, body);
}

#[test]
fn stale_count_is_rewritten_on_encode() {
    // A reference with group -1 but a non-zero length slot: nothing
    // trails, and the encoder writes the length back as 0.
    let mut body = ce_body();
    body[36..40].copy_from_slice(&0xFFFF_FFFFu32.to_be_bytes());
    body.truncate(body.len() - 6);
    let out = classic_roundtrip(&body, &classic_layout(), ClassicEngine::HaloCe).unwrap();
    assert_eq!(out.len(), body.len());
    assert_eq!(&out[44..48], &[0, 0, 0, 0]);
    assert_eq!(&body[44..48], &5u32.to_be_bytes());
}

#[test]
fn truncated_body_is_unexpected_eof() {
    let body = ce_body();
    let err = classic_roundtrip(&body[..body.len() - 2], &classic_layout(), ClassicEngine::HaloCe).unwrap_err();
    assert!(matches!(err, ClassicError::UnexpectedEof { .. }));
}

#[test]
fn unread_bytes_are_trailing() {
    let mut body = ce_body();
    body.extend_from_slice(&[1, 2]);
    let total = body.len();
    match classic_roundtrip(&body, &classic_layout(), ClassicEngine::HaloCe) {
        Err(ClassicError::TrailingBytes { consumed, total: t }) => {
            assert_eq!(t, total);
            assert_eq!(consumed, total - 2);
        },
        _ => panic!("expected trailing bytes"),
    }
}

#[test]
fn halo2_body_with_block_headers_roundtrips() {
    // Root block header (count 1, size 52), root bytes little-endian,
    // the blob, the items block header (count 2, size 4), elements, path.
    let mut body = Vec::new();
    body.extend_from_slice(b"tbfd");
    body.extend_from_slice(&0u32.to_le_bytes());
    body.extend_from_slice(&1u32.to_le_bytes());
    body.extend_from_slice(&52u32.to_le_bytes());
    let mut root = vec![0u8; 52];
    root[4..8].copy_from_slice(&2u32.to_le_bytes());
    root[24..28].copy_from_slice(&2u32.to_le_bytes());
    root[36..40].copy_from_slice(&u32::MAX.to_le_bytes());
    body.extend_from_slice(&root);
    body.extend_from_slice(&[5, 6]);
    body.extend_from_slice(b"tbfd");
    body.extend_from_slice(&0u32.to_le_bytes());
    body.extend_from_slice(&2u32.to_le_bytes());
    body.extend_from_slice(&4u32.to_le_bytes());
    body.extend_from_slice(&1u32.to_le_bytes());
    body.extend_from_slice(&2u32.to_le_bytes());
    let out = classic_roundtrip(&body, &classic_layout(), ClassicEngine::Halo2).unwrap();
    assert_eq!(out, body);
}

#[test]
fn header_parse_classifies_engines() {
    let bytes = ce_file(&ce_body());
    let (h, e) = ClassicHeader::parse(&bytes).unwrap();
    assert_eq!(e, ClassicEngine::HaloCe);
    assert_eq!(&h.group_tag, b"bitm");
    assert_eq!(&h.engine, b"blam");
    assert_eq!(h.version, 7);
    assert_eq!(h.checksum, 0x1234_5678);
    assert_eq!(e.body_endian(), Endian::Be);

    let mut h2 = vec![0u8; 64];
    h2[36..40].copy_from_slice(b"mtib");
    h2[56..58].copy_from_slice(&4u16.to_le_bytes());
    h2[60..64].copy_from_slice(b"!MLB");
    let (h, e) = ClassicHeader::parse(&h2).unwrap();
    assert_eq!(e, ClassicEngine::Halo2);
    assert_eq!(&h.group_tag, b"bitm");
    assert_eq!(&h.engine, b"BLM!");
    assert_eq!(h.version, 4);
    assert_eq!(e.body_endian(), Endian::Le);

    assert!(ClassicHeader::parse(&bytes[..63]).is_none());
    let mut other = bytes.clone();
    other[60..64].copy_from_slice(b"BLAM");
    assert!(ClassicHeader::parse(&other).is_none());
}

#[test]
fn classic_file_reads_into_a_tag_file() {
    let file = read_classic_tag_file(&ce_file(&ce_body()), classic_layout()).unwrap();
    assert_eq!(file.header.group_tag, u32::from_be_bytes(*b"bitm"));
    assert_eq!(file.header.version, 7);
    assert_eq!(file.header.checksum, 0x1234_5678);
    assert_eq!(file.tag_stream.data.elements.len(), 1);
    assert_eq!(file.tag_stream.data.endian, Endian::Be);
    assert!(matches!(read_classic_tag_file(&[0u8; 70], classic_layout()), Err(ClassicError::NotClassic)));
    assert!(matches!(read_classic_tag_file(&[0u8; 10], classic_layout()), Err(ClassicError::ShortHeader)));
    assert!(matches!(read_classic_tag_file(&[0u8; 63], classic_layout()), Err(ClassicError::ShortHeader)));
}

#[test]
fn unchecksummed_tag_writes_back_byte_exact() {
    let mut bytes = ce_file(&ce_body());
    bytes[40..44].copy_from_slice(&0xFFFF_FFFFu32.to_be_bytes());
    let tag = read_classic_tag_file(&bytes, classic_layout()).unwrap();
    let out = write_classic_tag(&tag, ClassicEngine::HaloCe, &bytes[..64]);
    assert_eq!(out, bytes);
}

#[test]
fn written_tag_carries_the_body_checksum() {
    let bytes = ce_file(&ce_body());
    let tag = read_classic_tag_file(&bytes, classic_layout()).unwrap();
    let out = write_classic_tag(&tag, ClassicEngine::HaloCe, &bytes[..64]);
    let mut expected = bytes.clone();
    expected[40..44].copy_from_slice(&classic_checksum(&bytes[64..]).to_be_bytes());
    assert_eq!(out, expected);
    assert_ne!(out[40..44], bytes[40..44]);
}
