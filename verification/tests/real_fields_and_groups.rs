use blam_tags::api::TagSetError;
use blam_tags::biped::{check_biped_group, BipedError};
use blam_tags::bytes::Endian;
use blam_tags::data::{TagBlockData, TagStructData, TagSubChunkContent, TagSubChunkEntry};
use blam_tags::fields::TagFieldType;
use blam_tags::file::{TagFile, TagStream};
use blam_tags::layout::{
    TagBlockLayout, TagFieldLayout, TagFieldTypeLayout, TagLayout, TagLayoutHeader, TagLayoutString, TagStructLayout,
};

// Root struct (24 bytes): speed (real) @0, turn (angle) @4, count (long)
// @8, items (block of root) @12.
fn layout() -> TagLayout {
    let names = ["speed", "turn", "count", "items", "root", "", "real", "angle", "long"];
    let strings = names
        .iter()
        .enumerate()
        .map(|(i, n)| TagLayoutString { offset: (i as u32) * 10, text: n.to_string() })
        .collect();
    let f = |name: u32, ty: u32, def: u32, off: u32, t: TagFieldType| TagFieldLayout {
        name_offset: name * 10,
        type_index: ty,
        definition: def,
        offset: off,
        field_type: t,
    };
    TagLayout {
        header: TagLayoutHeader { tag_group_block_index: 0 },
        fields: vec![
            f(0, 0, 0, 0, TagFieldType::Real),
            f(1, 1, 0, 4, TagFieldType::Angle),
            f(2, 2, 0, 8, TagFieldType::LongInteger),
            f(3, 3, 0, 12, TagFieldType::Block),
            f(5, 4, 0, 24, TagFieldType::Terminator),
        ],
        struct_layouts: vec![TagStructLayout { index: 0, name_offset: 40, first_field_index: 0, size: 24 }],
        block_layouts: vec![TagBlockLayout { index: 0, struct_index: 0 }],
        array_layouts: vec![],
        resource_layouts: vec![],
        field_types: vec![
            TagFieldTypeLayout { name_offset: 60, size: 4, needs_sub_chunk: 0 },
            TagFieldTypeLayout { name_offset: 70, size: 4, needs_sub_chunk: 0 },
            TagFieldTypeLayout { name_offset: 80, size: 4, needs_sub_chunk: 0 },
            TagFieldTypeLayout { name_offset: 50, size: 12, needs_sub_chunk: 1 },
            TagFieldTypeLayout { name_offset: 50, size: 0, needs_sub_chunk: 0 },
        ],
        string_lists: vec![],
        string_offsets: vec![],
        strings,
    }
}

fn file() -> TagFile {
    let empty = TagBlockData {
        block_index: 0,
        flags: 0,
        raw_data: vec![],
        endian: Endian::Le,
        elements: vec![],
        classic_block_header: None,
    };
    let root = TagStructData {
        struct_index: 0,
        sub_chunks: vec![TagSubChunkEntry { field_index: Some(3), content: TagSubChunkContent::Block(empty) }],
    };
    let data = TagBlockData {
        block_index: 0,
        flags: 0,
        raw_data: vec![0xEEu8; 24],
        endian: Endian::Le,
        elements: vec![root],
        classic_block_header: None,
    };
    let mut file = TagFile::new(layout(), u32::from_be_bytes(*b"test"), 1);
    file.tag_stream = TagStream { layout: layout(), data };
    file
}

#[test]
fn real_bits_are_stored_little_endian_in_float_fields() {
    let mut file = file();
    {
        let mut root = file.root_mut();
        let mut speed = root.field_mut("speed").unwrap();
        assert!(speed.set_real_bits(2.5f32.to_bits()).is_ok());
    }
    {
        let mut root = file.root_mut();
        let mut turn = root.field_mut("turn").unwrap();
        assert!(turn.set_real_bits((-1.0f32).to_bits()).is_ok());
    }
    let root = file.root();
    assert_eq!(root.field("speed").unwrap().real_bits(), Some(2.5f32.to_bits()));
    assert_eq!(root.field("turn").unwrap().real_bits().map(f32::from_bits), Some(-1.0));
    assert_eq!(root.field("count").unwrap().real_bits(), None);
    let raw = &file.tag_stream.data.raw_data;
    assert_eq!(&raw[0..4], &2.5f32.to_le_bytes());
    assert_eq!(&raw[4..8], &(-1.0f32).to_le_bytes());
    assert_eq!(&raw[8..24], &[0xEEu8; 16]);
}

#[test]
fn real_bits_refused_for_other_fields() {
    let mut file = file();
    {
        let mut root = file.root_mut();
        let mut count = root.field_mut("count").unwrap();
        match count.set_real_bits(1.0f32.to_bits()) {
            Err(TagSetError::TypeMismatch { expected, got }) => {
                assert_eq!(expected, "long");
                assert_eq!(got, "real");
            },
            other => panic!("expected a type mismatch, got {:?}", other),
        }
    }
    {
        let mut root = file.root_mut();
        let mut items = root.field_mut("items").unwrap();
        assert!(matches!(items.set_real_bits(0), Err(TagSetError::NotAssignable)));
    }
    assert_eq!(file.tag_stream.data.raw_data, vec![0xEEu8; 24]);
}

#[test]
fn biped_group_check() {
    let biped = TagFile::new(layout(), u32::from_be_bytes(*b"bipd"), 1);
    assert!(check_biped_group(&biped).is_ok());
    let other = TagFile::new(layout(), u32::from_be_bytes(*b"vehi"), 1);
    match check_biped_group(&other) {
        Err(BipedError::WrongGroup { expected, actual }) => {
            assert_eq!(&expected, b"bipd");
            assert_eq!(&actual, b"vehi");
        },
        Ok(()) => panic!("a vehicle tag passed the biped check"),
    }
}
