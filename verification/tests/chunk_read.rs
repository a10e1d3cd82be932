use blam_tags::bytes::Endian;
use blam_tags::data::{TagBlockData, TagStructData, TagSubChunkContent, TagSubChunkEntry};
use blam_tags::fields::TagFieldType;
use blam_tags::file::TagReadError;
use blam_tags::layout::{
    TagBlockLayout, TagFieldLayout, TagFieldTypeLayout, TagLayout, TagLayoutHeader, TagLayoutString, TagStructLayout,
};

// Root struct (52 bytes): count (long) @0, blob (data) @4, items
// (block of item) @24, ref (tag reference) @36. Item struct: value @0.
fn mcc_layout() -> TagLayout {
    let names = ["count", "blob", "items", "ref", "value", "root", "item", ""];
    let strings = names
        .iter()
        .enumerate()
        .map(|(i, n)| TagLayoutString { offset: i as u32, text: n.to_string() })
        .collect();
    let field_types = vec![
        TagFieldTypeLayout { name_offset: 0, size: 4, needs_sub_chunk: 0 },
        TagFieldTypeLayout { name_offset: 0, size: 20, needs_sub_chunk: 1 },
        TagFieldTypeLayout { name_offset: 0, size: 12, needs_sub_chunk: 1 },
        TagFieldTypeLayout { name_offset: 0, size: 16, needs_sub_chunk: 1 },
        TagFieldTypeLayout { name_offset: 0, size: 0, needs_sub_chunk: 0 },
    ];
    let f = |name: u32, ty: u32, def: u32, off: u32, t: TagFieldType| TagFieldLayout {
        name_offset: name,
        type_index: ty,
        definition: def,
        offset: off,
        field_type: t,
    };
    TagLayout {
        header: TagLayoutHeader { tag_group_block_index: 0 },
        fields: vec![
            f(0, 0, 0, 0, TagFieldType::LongInteger),
            f(1, 1, 0, 4, TagFieldType::Data),
            f(2, 2, 1, 24, TagFieldType::Block),
            f(3, 3, 0, 36, TagFieldType::TagReference),
            f(7, 4, 0, 52, TagFieldType::Terminator),
            f(4, 0, 0, 0, TagFieldType::LongInteger),
            f(7, 4, 0, 4, TagFieldType::Terminator),
        ],
        struct_layouts: vec![
            TagStructLayout { index: 0, name_offset: 5, first_field_index: 0, size: 52 },
            TagStructLayout { index: 1, name_offset: 6, first_field_index: 5, size: 4 },
        ],
        block_layouts: vec![TagBlockLayout { index: 0, struct_index: 0 }, TagBlockLayout { index: 1, struct_index: 1 }],
        array_layouts: vec![],
        resource_layouts: vec![],
        field_types,
        string_lists: vec![],
        string_offsets: vec![],
        strings,
    }
}

fn entry(field_index: u32, content: TagSubChunkContent) -> TagSubChunkEntry {
    TagSubChunkEntry { field_index: Some(field_index), content }
}

fn items(flags: u32) -> TagBlockData {
    TagBlockData {
        block_index: 1,
        flags,
        raw_data: vec![1, 0, 0, 0, 2, 0, 0, 0],
        endian: Endian::Le,
        elements: vec![
            TagStructData { struct_index: 1, sub_chunks: vec![] },
            TagStructData { struct_index: 1, sub_chunks: vec![] },
        ],
        classic_block_header: None,
    }
}

fn root() -> TagStructData {
    TagStructData {
        struct_index: 0,
        sub_chunks: vec![
            entry(1, TagSubChunkContent::Data(vec![7, 8, 9])),
            entry(2, TagSubChunkContent::Block(items(0))),
            entry(3, TagSubChunkContent::TagReference(b"tibmui\\hud\0".to_vec())),
        ],
    }
}

fn bytes_of(d: &TagStructData) -> Vec<u8> {
    let mut out = Vec::new();
    d.write(&mut out);
    out
}

#[test]
fn struct_read_back_writes_the_same_bytes() {
    let layout = mcc_layout();
    let bytes = bytes_of(&root());
    let (d, end) = TagStructData::read(&layout, 0, &bytes, 0).expect("reads");
    assert_eq!(end, bytes.len());
    assert_eq!(d.struct_index, 0);
    assert_eq!(d.sub_chunks.len(), 3);
    assert_eq!(bytes_of(&d), bytes);
}

#[test]
fn struct_read_gives_each_sub_chunk_its_field() {
    let layout = mcc_layout();
    let bytes = bytes_of(&root());
    let (d, _) = TagStructData::read(&layout, 0, &bytes, 0).expect("reads");
    let owners: Vec<Option<u32>> = d.sub_chunks.iter().map(|e| e.field_index).collect();
    assert_eq!(owners, vec![Some(1), Some(2), Some(3)]);
    match &d.sub_chunks[0].content {
        TagSubChunkContent::Data(p) => assert_eq!(p, &vec![7u8, 8, 9]),
        other => panic!("expected data, got {:?}", other),
    }
    match &d.sub_chunks[1].content {
        TagSubChunkContent::Block(b) => {
            assert_eq!(b.block_index, 1);
            assert_eq!(b.flags, 0);
            assert_eq!(b.raw_data, vec![1, 0, 0, 0, 2, 0, 0, 0]);
            assert_eq!(b.elements.len(), 2);
            assert!(b.elements.iter().all(|e| e.struct_index == 1 && e.sub_chunks.is_empty()));
        },
        other => panic!("expected a block, got {:?}", other),
    }
    match &d.sub_chunks[2].content {
        TagSubChunkContent::TagReference(p) => assert_eq!(p, &b"tibmui\\hud\0".to_vec()),
        other => panic!("expected a tag reference, got {:?}", other),
    }
}

#[test]
fn struct_read_at_an_offset() {
    let layout = mcc_layout();
    let body = bytes_of(&root());
    let mut bytes = vec![0xAAu8; 5];
    bytes.extend_from_slice(&body);
    let (d, end) = TagStructData::read(&layout, 0, &bytes, 5).expect("reads");
    assert_eq!(end, bytes.len());
    assert_eq!(bytes_of(&d), body);
}

#[test]
fn simple_block_reads_bytes_only() {
    let layout = mcc_layout();
    let mut bytes = Vec::new();
    items(1).write(&mut bytes);
    let (b, end) = TagBlockData::read(&layout, 1, &bytes, 0).expect("reads");
    assert_eq!(end, bytes.len());
    assert_eq!(b.flags, 1);
    assert_eq!(b.raw_data, vec![1, 0, 0, 0, 2, 0, 0, 0]);
    assert_eq!(b.elements.len(), 2);
    let mut again = Vec::new();
    b.write(&mut again);
    assert_eq!(again, bytes);
}

#[test]
fn struct_read_refusals() {
    let layout = mcc_layout();
    let bytes = bytes_of(&root());
    // Not a tgst.
    let mut bad = bytes.clone();
    bad[0] ^= 0xFF;
    assert!(matches!(TagStructData::read(&layout, 0, &bad, 0), Err(TagReadError::BadChunkSignature { .. })));
    // Version word differs from the size.
    let mut bad = bytes.clone();
    bad[4] ^= 1;
    assert!(matches!(TagStructData::read(&layout, 0, &bad, 0), Err(TagReadError::BadChunkVersion { .. })));
    // Cut short.
    assert!(matches!(
        TagStructData::read(&layout, 0, &bytes[..bytes.len() - 1], 0),
        Err(TagReadError::Truncated { .. })
    ));
    assert!(matches!(TagStructData::read(&layout, 0, &bytes[..6], 0), Err(TagReadError::Truncated { need: 12, have: 6 })));
}

#[test]
fn struct_size_must_cover_its_sub_chunks() {
    let layout = mcc_layout();
    let content = bytes_of(&root())[12..].to_vec();
    // Declare four bytes more than the sub-chunks take, then pad.
    let size = content.len() as u32 + 4;
    let mut bytes = Vec::new();
    bytes.extend_from_slice(&u32::from_be_bytes(*b"tgst").to_le_bytes());
    bytes.extend_from_slice(&size.to_le_bytes());
    bytes.extend_from_slice(&size.to_le_bytes());
    bytes.extend_from_slice(&content);
    bytes.extend_from_slice(&[0u8; 4]);
    assert!(matches!(TagStructData::read(&layout, 0, &bytes, 0), Err(TagReadError::ChunkSizeMismatch { .. })));
}

#[test]
fn layout_check_accepts_a_walkable_layout() {
    assert!(mcc_layout().check());
}

#[test]
fn layout_check_refuses_self_nesting_and_open_runs() {
    let mut cyclic = mcc_layout();
    cyclic.fields[0].field_type = TagFieldType::Struct;
    cyclic.fields[0].definition = 0;
    assert!(!cyclic.check());
    let mut open = mcc_layout();
    open.fields.pop();
    assert!(!open.check());
    let mut bad_block = mcc_layout();
    bad_block.fields[2].definition = 9;
    assert!(!bad_block.check());
}

// Struct (8 bytes): name (string id) @0, old name (old string id) @4.
fn string_id_layout() -> TagLayout {
    let names = ["name", "old name", "ids", ""];
    let strings = names
        .iter()
        .enumerate()
        .map(|(i, n)| TagLayoutString { offset: i as u32, text: n.to_string() })
        .collect();
    let f = |name: u32, ty: u32, off: u32, t: TagFieldType| TagFieldLayout {
        name_offset: name,
        type_index: ty,
        definition: 0,
        offset: off,
        field_type: t,
    };
    TagLayout {
        header: TagLayoutHeader { tag_group_block_index: 0 },
        fields: vec![
            f(0, 0, 0, TagFieldType::StringId),
            f(1, 1, 4, TagFieldType::OldStringId),
            f(3, 2, 8, TagFieldType::Terminator),
        ],
        struct_layouts: vec![TagStructLayout { index: 0, name_offset: 2, first_field_index: 0, size: 8 }],
        block_layouts: vec![TagBlockLayout { index: 0, struct_index: 0 }],
        array_layouts: vec![],
        resource_layouts: vec![],
        field_types: vec![
            TagFieldTypeLayout { name_offset: 0, size: 4, needs_sub_chunk: 1 },
            TagFieldTypeLayout { name_offset: 1, size: 4, needs_sub_chunk: 1 },
            TagFieldTypeLayout { name_offset: 3, size: 0, needs_sub_chunk: 0 },
        ],
        string_lists: vec![],
        string_offsets: vec![],
        strings,
    }
}

#[test]
fn string_id_and_old_string_id_keep_their_kinds() {
    let layout = string_id_layout();
    let d = TagStructData {
        struct_index: 0,
        sub_chunks: vec![
            entry(0, TagSubChunkContent::StringId(b"walk".to_vec())),
            entry(1, TagSubChunkContent::OldStringId(b"run".to_vec())),
        ],
    };
    let bytes = bytes_of(&d);
    let (got, end) = TagStructData::read(&layout, 0, &bytes, 0).expect("reads");
    assert_eq!(end, bytes.len());
    assert_eq!(got.sub_chunks.len(), 2);
    assert_eq!(got.sub_chunks[0].field_index, Some(0));
    assert_eq!(got.sub_chunks[1].field_index, Some(1));
    assert!(matches!(&got.sub_chunks[0].content, TagSubChunkContent::StringId(p) if p == b"walk"));
    assert!(matches!(&got.sub_chunks[1].content, TagSubChunkContent::OldStringId(p) if p == b"run"));
}
