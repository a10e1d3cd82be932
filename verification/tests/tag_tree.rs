use blam_tags::api::{TagResourceKind, TagSetError};
use blam_tags::data::{TagBlockData, TagStructData, TagSubChunkContent, TagSubChunkEntry};
use blam_tags::bytes::Endian;
use blam_tags::fields::{format_group_tag, parse_group_tag, TagFieldType};
use blam_tags::file::{TagFile, TagFileHeader, TagStream, BLAM_SIGNATURE};
use blam_tags::layout::{
    TagBlockLayout, TagFieldLayout, TagFieldTypeLayout, TagLayout, TagLayoutHeader, TagLayoutString, TagStringList,
    TagStructLayout,
};
use blam_tags::equipment::{EquipmentTypeShowme, EquipmentTypeTreeOfLife};
use blam_tags::geometry::{read_int_any, read_tag_ref_path};
use blam_tags::text::{chars_of, edit_distance};

// Root struct (58 bytes):
//   count  long integer  @0
//   blob   data          @4  (20 inline bytes)
//   items  block         @24 (12 inline bytes) of item
//   ref    tag reference @36 (16 inline bytes)
//   kind   short enum    @52 (alpha, beta, gamma)
//   flags  long flags    @54 (first, second, third)
// Item struct (6 bytes):
//   value  short integer @0
//   label  string id     @2 (4 inline bytes)
fn names() -> Vec<&'static str> {
    vec![
        "count", "blob", "items", "ref", "kind", "flags", "value", "label", "root", "item", "alpha", "beta", "gamma",
        "first", "second", "third", "",
    ]
}

fn offset_of(name: &str) -> u32 {
    let mut off = 0u32;
    for n in names() {
        if n == name {
            return off;
        }
        off += 100;
    }
    panic!("no such name")
}

fn field(name: &str, type_index: u32, definition: u32, offset: u32, field_type: TagFieldType) -> TagFieldLayout {
    TagFieldLayout { name_offset: offset_of(name), type_index, definition, offset, field_type }
}

fn sample_layout() -> TagLayout {
    let strings = names()
        .into_iter()
        .map(|n| TagLayoutString { offset: offset_of(n), text: n.to_string() })
        .collect();
    // type table: 0 long, 1 data, 2 block, 3 tagref, 4 short enum,
    // 5 long flags, 6 short, 7 string id, 8 terminator
    let field_types = vec![
        TagFieldTypeLayout { name_offset: 0, size: 4, needs_sub_chunk: 0 },
        TagFieldTypeLayout { name_offset: 0, size: 20, needs_sub_chunk: 1 },
        TagFieldTypeLayout { name_offset: 0, size: 12, needs_sub_chunk: 1 },
        TagFieldTypeLayout { name_offset: 0, size: 16, needs_sub_chunk: 1 },
        TagFieldTypeLayout { name_offset: 0, size: 2, needs_sub_chunk: 0 },
        TagFieldTypeLayout { name_offset: 0, size: 4, needs_sub_chunk: 0 },
        TagFieldTypeLayout { name_offset: 0, size: 2, needs_sub_chunk: 0 },
        TagFieldTypeLayout { name_offset: 0, size: 4, needs_sub_chunk: 1 },
        TagFieldTypeLayout { name_offset: 0, size: 0, needs_sub_chunk: 0 },
    ];
    let fields = vec![
        field("count", 0, 0, 0, TagFieldType::LongInteger),
        field("blob", 1, 0, 4, TagFieldType::Data),
        field("items", 2, 1, 24, TagFieldType::Block),
        field("ref", 3, 0, 36, TagFieldType::TagReference),
        field("kind", 4, 0, 52, TagFieldType::ShortEnum),
        field("flags", 5, 1, 54, TagFieldType::LongFlags),
        field("", 8, 0, 58, TagFieldType::Terminator),
        field("value", 6, 0, 0, TagFieldType::ShortInteger),
        field("label", 7, 0, 2, TagFieldType::StringId),
        field("", 8, 0, 6, TagFieldType::Terminator),
    ];
    TagLayout {
        header: TagLayoutHeader { tag_group_block_index: 0 },
        fields,
        struct_layouts: vec![
            TagStructLayout { index: 0, name_offset: offset_of("root"), first_field_index: 0, size: 58 },
            TagStructLayout { index: 1, name_offset: offset_of("item"), first_field_index: 7, size: 6 },
        ],
        block_layouts: vec![
            TagBlockLayout { index: 0, struct_index: 0 },
            TagBlockLayout { index: 1, struct_index: 1 },
        ],
        array_layouts: vec![],
        resource_layouts: vec![],
        field_types,
        string_lists: vec![TagStringList { first: 0, count: 3 }, TagStringList { first: 3, count: 3 }],
        string_offsets: vec![
            offset_of("alpha"),
            offset_of("beta"),
            offset_of("gamma"),
            offset_of("first"),
            offset_of("second"),
            offset_of("third"),
        ],
        strings,
    }
}

fn item(value: i16, label: &str) -> (Vec<u8>, TagStructData) {
    let mut raw = value.to_le_bytes().to_vec();
    raw.extend_from_slice(&[0, 0, 0, 0]);
    let data = TagStructData {
        struct_index: 1,
        sub_chunks: vec![TagSubChunkEntry {
            field_index: Some(8),
            content: TagSubChunkContent::StringId(label.as_bytes().to_vec()),
        }],
    };
    (raw, data)
}

fn sample_file() -> TagFile {
    let layout = sample_layout();
    let mut root_raw = vec![0u8; 58];
    root_raw[0..4].copy_from_slice(&7i32.to_le_bytes());
    root_raw[52..54].copy_from_slice(&1i16.to_le_bytes());
    root_raw[54..58].copy_from_slice(&0b101u32.to_le_bytes());
    let (r0, d0) = item(10, "idle");
    let (r1, d1) = item(-3, "walk");
    let mut items_raw = r0;
    items_raw.extend_from_slice(&r1);
    let items = TagBlockData {
        block_index: 1,
        flags: 0,
        raw_data: items_raw,
        endian: Endian::Le,
        elements: vec![d0, d1],
        classic_block_header: None,
    };
    let mut reference = u32::from_le_bytes(*b"mtib").to_le_bytes().to_vec();
    reference.extend_from_slice(b"objects\\crate");
    let root = TagStructData {
        struct_index: 0,
        sub_chunks: vec![
            TagSubChunkEntry { field_index: Some(1), content: TagSubChunkContent::Data(vec![1, 2, 3]) },
            TagSubChunkEntry { field_index: Some(2), content: TagSubChunkContent::Block(items) },
            TagSubChunkEntry { field_index: Some(3), content: TagSubChunkContent::TagReference(reference) },
        ],
    };
    let data = TagBlockData {
        block_index: 0,
        flags: 0,
        raw_data: root_raw,
        endian: Endian::Le,
        elements: vec![root],
        classic_block_header: None,
    };
    let mut file = TagFile::new(sample_layout(), u32::from_be_bytes(*b"test"), 1);
    file.tag_stream = TagStream { layout, data };
    file
}

#[test]
fn field_lookup_reads_integers_and_names() {
    let file = sample_file();
    let root = file.root();
    assert_eq!(root.name(), "root");
    assert_eq!(root.size(), 58);
    assert_eq!(root.read_int_any("count"), Some(7));
    assert_eq!(root.read_int_any("blob"), None);
    assert_eq!(root.read_int_any("missing"), None);
    assert!(root.field("items").is_some());
    assert!(root.field("Items").is_none());
    assert_eq!(root.field_names(), vec!["count", "blob", "items", "ref", "kind", "flags"]);
    assert_eq!(root.field("count").unwrap().field_type(), TagFieldType::LongInteger);
}

#[test]
fn field_path_mut_edits_the_place_the_path_names() {
    let mut file = sample_file();
    {
        let mut root = file.root_mut();
        let mut value = root.field_path_mut("items[1]/value").unwrap();
        assert!(value.parse_and_set("25").is_ok());
    }
    {
        let mut root = file.root_mut();
        let mut label = root.field_path_mut("items[0]/label").unwrap();
        assert!(label.parse_and_set("run").is_ok());
    }
    {
        let mut root = file.root_mut();
        let mut count = root.field_path_mut("count").unwrap();
        assert!(count.parse_and_set("9").is_ok());
        assert!(root.field_path_mut("items[2]/value").is_none());
        assert!(root.field_path_mut("items/value").is_none());
        assert!(root.field_path_mut("items[0]/missing").is_none());
        assert!(root.field_path_mut("").is_none());
    }
    let root = file.root();
    assert_eq!(root.read_int_any("count"), Some(9));
    let items = root.field("items").unwrap().as_block().unwrap();
    assert_eq!(items.len(), 2);
    assert_eq!(items.element(0).unwrap().read_int_any("value"), Some(10));
    assert_eq!(items.element(1).unwrap().read_int_any("value"), Some(25));
    assert_eq!(items.element(0).unwrap().read_string_id("label").as_deref(), Some("run"));
    assert_eq!(items.element(1).unwrap().read_string_id("label").as_deref(), Some("walk"));
}

#[test]
fn block_elements_and_string_ids() {
    let file = sample_file();
    let root = file.root();
    let items = root.field("items").unwrap().as_block().unwrap();
    assert_eq!(items.len(), 2);
    assert!(!items.is_empty());
    let second = items.element(1).unwrap();
    assert_eq!(second.read_int_any("value"), Some(-3));
    assert_eq!(second.read_string_id("label").as_deref(), Some("walk"));
    assert!(items.element(2).is_none());
    assert_eq!(items.iter().len(), 2);
}

#[test]
fn field_path_steps_into_block_elements() {
    let file = sample_file();
    let root = file.root();
    let f = root.field_path("items[0]/value").unwrap();
    assert_eq!(f.int_value(), Some(10));
    let f = root.field_path("items[1]/label").unwrap();
    assert_eq!(f.string_id().as_deref(), Some("walk"));
    assert!(root.field_path("items[2]/value").is_none());
    assert!(root.field_path("items/value").is_none());
    assert!(root.descend("items[1]").is_some());
}

#[test]
fn enum_names_and_flag_bits() {
    let file = sample_file();
    let root = file.root();
    assert_eq!(root.read_enum_name("kind").as_deref(), Some("beta"));
    let flags = root.field("flags").unwrap();
    assert!(flags.flag_set(0));
    assert!(!flags.flag_set(1));
    assert!(flags.flag_set(2));
    assert_eq!(flags.flag_name(1), "second");
    let third = flags.flag("third").unwrap();
    assert_eq!(third.bit(), 2);
    assert!(third.is_set());
    assert!(flags.flag("fourth").is_none());
}

#[test]
fn data_and_reference_payloads() {
    let file = sample_file();
    let root = file.root();
    assert_eq!(root.field("blob").unwrap().as_data(), Some(&[1u8, 2, 3][..]));
    assert!(root.field("count").unwrap().as_data().is_none());
    assert!(root.field("ref").unwrap().as_resource().is_none());
    let _ = TagResourceKind::Null;
}

#[test]
fn suggest_field_name_picks_the_closest() {
    let file = sample_file();
    let root = file.root();
    assert_eq!(root.suggest_field_name("cuont"), Some("count"));
    assert_eq!(root.suggest_field_name("ITEMS"), Some("items"));
    assert_eq!(root.suggest_field_name("zzzzzzzzzzzzzz"), None);
}

#[test]
fn edit_distance_classic_example() {
    let a = chars_of("kitten");
    let b = chars_of("sitting");
    assert_eq!(edit_distance(&a, &b), 3);
    assert_eq!(edit_distance(&a, &a), 0);
    assert_eq!(edit_distance(&chars_of(""), &b), 7);
}

#[test]
fn block_editing_add_delete_swap() {
    let mut file = sample_file();
    {
        let mut root = file.root_mut();
        let mut items_field = root.field_mut("items").unwrap();
        let mut items = items_field.as_block_mut().unwrap();
        assert_eq!(items.len(), 2);
        let i = items.add();
        assert_eq!(i, 2);
        assert_eq!(items.len(), 3);
        assert!(items.swap(0, 1).is_ok());
        assert!(items.swap(0, 5).is_err());
        assert!(items.delete(2).is_ok());
        assert!(items.delete(7).is_err());
        assert_eq!(items.duplicate(0).ok(), Some(1));
        assert_eq!(items.len(), 3);
    }
    let root = file.root();
    let items = root.field("items").unwrap().as_block().unwrap();
    assert_eq!(items.element(0).unwrap().read_int_any("value"), Some(-3));
    assert_eq!(items.element(1).unwrap().read_int_any("value"), Some(-3));
    assert_eq!(items.element(2).unwrap().read_int_any("value"), Some(10));
    assert_eq!(items.element(1).unwrap().read_string_id("label").as_deref(), Some("walk"));
}

#[test]
fn block_clear_empties() {
    let mut file = sample_file();
    {
        let mut root = file.root_mut();
        let mut items_field = root.field_mut("items").unwrap();
        let mut items = items_field.as_block_mut().unwrap();
        items.clear();
        assert!(items.is_empty());
    }
    let root = file.root();
    assert_eq!(root.field("items").unwrap().as_block().unwrap().len(), 0);
}

#[test]
fn flag_write_then_read() {
    let mut file = sample_file();
    {
        let mut root = file.root_mut();
        let mut flags = root.field_mut("flags").unwrap();
        let mut second = flags.flag_mut("second").unwrap();
        assert!(!second.is_set());
        second.set(true);
        assert!(second.is_set());
        assert!(!second.toggle());
    }
    let root = file.root();
    let flags = root.field("flags").unwrap();
    assert!(!flags.flag_set(1));
    assert!(flags.flag_set(0));
}

#[test]
fn header_write_then_read() {
    let header = TagFileHeader {
        pad: [7u8; 36],
        build_version: -2,
        build_number: 5,
        version: 3,
        group_tag: u32::from_be_bytes(*b"bitm"),
        group_version: 9,
        checksum: 0xDEADBEEF,
        signature: BLAM_SIGNATURE,
    };
    let mut out = Vec::new();
    header.write(&mut out);
    assert_eq!(out.len(), 64);
    assert_eq!(&out[60..64], b"MALB");
    let back = TagFileHeader::read(&out).unwrap();
    assert_eq!(back.group_tag, header.group_tag);
    assert_eq!(back.checksum, 0xDEADBEEF);
    assert_eq!(back.build_version, -2);
    assert!(TagFileHeader::read(&out[..10]).is_err());
}

#[test]
fn group_tags_format_and_parse() {
    assert_eq!(format_group_tag(u32::from_be_bytes(*b"bitm")), "bitm");
    assert_eq!(parse_group_tag("bitm"), Some(u32::from_be_bytes(*b"bitm")));
    assert_eq!(TagFieldType::from_name("long integer"), TagFieldType::LongInteger);
    assert_eq!(TagFieldType::from_name("no such type"), TagFieldType::Unknown);
}

#[test]
fn new_tag_file_has_zeroed_root() {
    let file = TagFile::new(sample_layout(), u32::from_be_bytes(*b"test"), 2);
    assert_eq!(file.group().version, 2);
    let root = file.root();
    assert_eq!(root.read_int_any("count"), Some(0));
    assert_eq!(root.field("items").unwrap().as_block().unwrap().len(), 0);
}

#[test]
fn parse_and_set_integers_and_refusals() {
    let mut file = sample_file();
    {
        let mut root = file.root_mut();
        let mut count = root.field_mut("count").unwrap();
        assert!(count.parse_and_set("-42").is_ok());
        assert!(matches!(count.parse_and_set("4x"), Err(TagSetError::ParseError(_))));
        assert!(matches!(count.parse_and_set("2147483648"), Err(TagSetError::ParseError(_))));
        assert!(matches!(count.parse_and_set(""), Err(TagSetError::ParseError(_))));
        assert!(matches!(count.parse_and_set("-"), Err(TagSetError::ParseError(_))));
    }
    assert_eq!(file.root().read_int_any("count"), Some(-42));
    {
        let mut root = file.root_mut();
        let mut count = root.field_mut("count").unwrap();
        assert!(count.parse_and_set("+2147483647").is_ok());
    }
    assert_eq!(file.root().read_int_any("count"), Some(2147483647));
    {
        let mut root = file.root_mut();
        let mut items = root.field_mut("items").unwrap();
        assert!(matches!(items.parse_and_set("1"), Err(TagSetError::NotAssignable)));
    }
    {
        let mut root = file.root_mut();
        let mut blob = root.field_mut("blob").unwrap();
        assert!(matches!(blob.parse_and_set("1"), Err(TagSetError::ParseError(_))));
    }
    assert_eq!(file.root().field("blob").unwrap().as_data(), Some(&[1u8, 2, 3][..]));
}

#[test]
fn parse_and_set_enum_by_name_or_number() {
    let mut file = sample_file();
    {
        let mut root = file.root_mut();
        let mut kind = root.field_mut("kind").unwrap();
        assert!(kind.parse_and_set("GAMMA").is_ok());
    }
    assert_eq!(file.root().read_enum_name("kind").as_deref(), Some("gamma"));
    {
        let mut root = file.root_mut();
        let mut kind = root.field_mut("kind").unwrap();
        assert!(kind.parse_and_set("0").is_ok());
        assert!(matches!(kind.parse_and_set("delta"), Err(TagSetError::ParseError(_))));
    }
    assert_eq!(file.root().read_enum_name("kind").as_deref(), Some("alpha"));
}

#[test]
fn parse_and_set_flags_mask_decimal_and_hex() {
    let mut file = sample_file();
    {
        let mut root = file.root_mut();
        let mut flags = root.field_mut("flags").unwrap();
        assert!(flags.parse_and_set("0x3").is_ok());
    }
    {
        let root = file.root();
        let flags = root.field("flags").unwrap();
        assert!(flags.flag_set(0));
        assert!(flags.flag_set(1));
        assert!(!flags.flag_set(2));
    }
    {
        let mut root = file.root_mut();
        let mut flags = root.field_mut("flags").unwrap();
        assert!(flags.parse_and_set("4").is_ok());
        assert!(matches!(flags.parse_and_set("0xg"), Err(TagSetError::ParseError(_))));
    }
    let root = file.root();
    let flags = root.field("flags").unwrap();
    assert!(!flags.flag_set(0));
    assert!(flags.flag_set(2));
}

#[test]
fn parse_and_set_string_id_and_reference() {
    let mut file = sample_file();
    {
        let mut root = file.root_mut();
        let mut items_field = root.field_mut("items").unwrap();
        let mut items = items_field.as_block_mut().unwrap();
        let mut first = items.element_mut(0).unwrap();
        let mut label = first.field_mut("label").unwrap();
        assert!(label.parse_and_set("run").is_ok());
    }
    {
        let root = file.root();
        assert_eq!(root.field_path("items[0]/label").unwrap().string_id().as_deref(), Some("run"));
    }
    {
        let mut root = file.root_mut();
        let mut reference = root.field_mut("ref").unwrap();
        assert!(reference.parse_and_set("bitm:ui\\hud").is_ok());
        assert!(matches!(reference.parse_and_set("toolong:x"), Err(TagSetError::ParseError(_))));
        assert!(matches!(reference.parse_and_set("nocolon"), Err(TagSetError::ParseError(_))));
    }
    let mut expected = u32::from_be_bytes(*b"bitm").to_le_bytes().to_vec();
    expected.extend_from_slice(b"ui\\hud");
    match &file.tag_stream.data.elements[0].sub_chunks[2].content {
        TagSubChunkContent::TagReference(p) => assert_eq!(p, &expected),
        _ => panic!("reference chunk missing"),
    }
    {
        let mut root = file.root_mut();
        let mut reference = root.field_mut("ref").unwrap();
        assert!(reference.parse_and_set("NONE").is_ok());
    }
    match &file.tag_stream.data.elements[0].sub_chunks[2].content {
        TagSubChunkContent::TagReference(p) => assert!(p.is_empty()),
        _ => panic!("reference chunk missing"),
    }
}

fn want_layout() -> TagLayout {
    let names = ["dependencies", "dependency", "want", "dep", ""];
    let off = |n: &str| names.iter().position(|x| *x == n).unwrap() as u32 * 100;
    let strings = names.iter().map(|n| TagLayoutString { offset: off(n), text: n.to_string() }).collect();
    TagLayout {
        header: TagLayoutHeader { tag_group_block_index: 0 },
        fields: vec![
            TagFieldLayout { name_offset: off("dependencies"), type_index: 0, definition: 1, offset: 0, field_type: TagFieldType::Block },
            TagFieldLayout { name_offset: off(""), type_index: 2, definition: 0, offset: 12, field_type: TagFieldType::Terminator },
            TagFieldLayout { name_offset: off("dependency"), type_index: 1, definition: 0, offset: 0, field_type: TagFieldType::TagReference },
            TagFieldLayout { name_offset: off(""), type_index: 2, definition: 0, offset: 16, field_type: TagFieldType::Terminator },
        ],
        struct_layouts: vec![
            TagStructLayout { index: 0, name_offset: off("want"), first_field_index: 0, size: 12 },
            TagStructLayout { index: 1, name_offset: off("dep"), first_field_index: 2, size: 16 },
        ],
        block_layouts: vec![TagBlockLayout { index: 0, struct_index: 0 }, TagBlockLayout { index: 1, struct_index: 1 }],
        array_layouts: vec![],
        resource_layouts: vec![],
        field_types: vec![
            TagFieldTypeLayout { name_offset: 0, size: 12, needs_sub_chunk: 1 },
            TagFieldTypeLayout { name_offset: 0, size: 16, needs_sub_chunk: 1 },
            TagFieldTypeLayout { name_offset: 0, size: 0, needs_sub_chunk: 0 },
        ],
        string_lists: vec![],
        string_offsets: vec![],
        strings,
    }
}

#[test]
fn rebuild_dependency_list_collects_references() {
    let mut file = sample_file();
    assert!(file.dependency_list().is_none());
    assert_eq!(file.rebuild_dependency_list(want_layout()), Ok(()));
    let deps = file.dependency_list().unwrap();
    let block = deps.field("dependencies").unwrap().as_block().unwrap();
    assert_eq!(block.len(), 1);
    let mut expected = b"mtib".to_vec();
    expected.extend_from_slice(b"objects\\crate");
    let stream = file.dependency_list_stream.as_ref().unwrap();
    match &stream.data.elements[0].sub_chunks[0].content {
        TagSubChunkContent::Block(b) => match &b.elements[0].sub_chunks[0].content {
            TagSubChunkContent::TagReference(p) => assert_eq!(p, &expected),
            _ => panic!("dependency reference missing"),
        },
        _ => panic!("dependencies block missing"),
    }
    // A second rebuild replaces, not appends.
    assert_eq!(file.rebuild_dependency_list(want_layout()), Ok(()));
    let deps = file.dependency_list().unwrap();
    assert_eq!(deps.field("dependencies").unwrap().as_block().unwrap().len(), 1);
}

#[test]
fn rebuild_dependency_list_skips_import_info_references() {
    let mut file = sample_file();
    match &mut file.tag_stream.data.elements[0].sub_chunks[2].content {
        TagSubChunkContent::TagReference(p) => p[0..4].copy_from_slice(&u32::from_be_bytes(*b"impo").to_le_bytes()),
        _ => panic!("reference chunk missing"),
    }
    assert_eq!(file.rebuild_dependency_list(want_layout()), Ok(()));
    let deps = file.dependency_list().unwrap();
    assert!(deps.field("dependencies").unwrap().as_block().unwrap().is_empty());
}

#[test]
fn walker_readers_take_any_integer_shape() {
    let file = sample_file();
    let root = file.root();
    assert_eq!(read_int_any(&root, "count"), Some(7));
    assert_eq!(read_int_any(&root, "kind"), Some(1));
    assert_eq!(read_int_any(&root, "flags"), Some(5));
    assert_eq!(read_int_any(&root, "blob"), None);
    assert_eq!(read_int_any(&root, "missing"), None);
    assert_eq!(read_tag_ref_path(&root, "ref").as_deref(), Some("objects\\crate"));
    assert_eq!(read_tag_ref_path(&root, "count"), None);
    assert_eq!(EquipmentTypeShowme::from_struct(&root).flags, 5);
    assert_eq!(EquipmentTypeTreeOfLife::from_struct(&root).flags, 5);
    let items = root.field("items").unwrap().as_block().unwrap();
    assert_eq!(EquipmentTypeShowme::from_struct(&items.element(0).unwrap()).flags, 0);
}

#[test]
fn long_flags_read_as_signed_words() {
    let mut file = sample_file();
    file.tag_stream.data.raw_data[54..58].copy_from_slice(&0x8000_0001u32.to_le_bytes());
    let root = file.root();
    assert_eq!(read_int_any(&root, "flags"), Some(-2147483647));
    assert_eq!(EquipmentTypeShowme::from_struct(&root).flags, 0x8000_0001);
}

#[test]
fn second_swap_restores_block() {
    let mut file = sample_file();
    {
        let mut root = file.root_mut();
        let mut items_field = root.field_mut("items").unwrap();
        let mut items = items_field.as_block_mut().unwrap();
        assert!(items.swap(0, 1).is_ok());
        assert!(items.swap(0, 1).is_ok());
    }
    let root = file.root();
    let items = root.field("items").unwrap().as_block().unwrap();
    assert_eq!(items.element(0).unwrap().read_int_any("value"), Some(10));
    assert_eq!(items.element(1).unwrap().read_int_any("value"), Some(-3));
    assert_eq!(items.element(0).unwrap().read_string_id("label").as_deref(), Some("idle"));
}

#[test]
fn second_toggle_restores_flags() {
    let mut file = sample_file();
    let before = file.tag_stream.data.raw_data.clone();
    {
        let mut root = file.root_mut();
        let mut flags = root.field_mut("flags").unwrap();
        let mut third = flags.flag_mut("third").unwrap();
        assert!(!third.toggle());
        assert!(third.toggle());
    }
    assert_eq!(file.tag_stream.data.raw_data, before);
}

fn fixed_layout() -> TagLayout {
    let names = ["name", "grp", "pt", "rect", "col", "fixed", ""];
    let off = |n: &str| names.iter().position(|x| *x == n).unwrap() as u32 * 100;
    let strings = names.iter().map(|n| TagLayoutString { offset: off(n), text: n.to_string() }).collect();
    let f = |n: &str, ti: u32, at: u32, t: TagFieldType| TagFieldLayout {
        name_offset: off(n),
        type_index: ti,
        definition: 0,
        offset: at,
        field_type: t,
    };
    TagLayout {
        header: TagLayoutHeader { tag_group_block_index: 0 },
        fields: vec![
            f("name", 0, 0, TagFieldType::String),
            f("grp", 1, 32, TagFieldType::Tag),
            f("pt", 1, 36, TagFieldType::Point2d),
            f("rect", 2, 40, TagFieldType::Rectangle2d),
            f("col", 1, 48, TagFieldType::ArgbColor),
            f("", 3, 52, TagFieldType::Terminator),
        ],
        struct_layouts: vec![TagStructLayout { index: 0, name_offset: off("fixed"), first_field_index: 0, size: 52 }],
        block_layouts: vec![TagBlockLayout { index: 0, struct_index: 0 }],
        array_layouts: vec![],
        resource_layouts: vec![],
        field_types: vec![
            TagFieldTypeLayout { name_offset: 0, size: 32, needs_sub_chunk: 0 },
            TagFieldTypeLayout { name_offset: 0, size: 4, needs_sub_chunk: 0 },
            TagFieldTypeLayout { name_offset: 0, size: 8, needs_sub_chunk: 0 },
            TagFieldTypeLayout { name_offset: 0, size: 0, needs_sub_chunk: 0 },
        ],
        string_lists: vec![],
        string_offsets: vec![],
        strings,
    }
}

#[test]
fn fixed_value_readers() {
    let mut file = TagFile::new(fixed_layout(), u32::from_be_bytes(*b"test"), 1);
    let raw = &mut file.tag_stream.data.raw_data;
    raw[0..5].copy_from_slice(b"hello");
    raw[6] = b'x';
    raw[32..36].copy_from_slice(&u32::from_be_bytes(*b"bipd").to_le_bytes());
    raw[36..38].copy_from_slice(&(-5i16).to_le_bytes());
    raw[38..40].copy_from_slice(&7i16.to_le_bytes());
    for (k, v) in [1i16, 2, 3, 4].iter().enumerate() {
        raw[40 + 2 * k..42 + 2 * k].copy_from_slice(&v.to_le_bytes());
    }
    raw[48..52].copy_from_slice(&0x80FF_0000u32.to_le_bytes());
    let root = file.root();
    assert_eq!(root.field("name").unwrap().string_value().as_deref(), Some("hello"));
    assert_eq!(root.field("grp").unwrap().tag_value(), Some(u32::from_be_bytes(*b"bipd")));
    assert_eq!(format_group_tag(root.field("grp").unwrap().tag_value().unwrap()), "bipd");
    assert_eq!(root.field("pt").unwrap().point2d_value(), Some((-5, 7)));
    assert_eq!(root.field("rect").unwrap().rectangle2d_value(), Some((1, 2, 3, 4)));
    assert_eq!(root.field("col").unwrap().color_value(), Some(0x80FF_0000));
    assert_eq!(root.field("pt").unwrap().string_value(), None);
    assert_eq!(root.field("name").unwrap().tag_value(), None);
    assert_eq!(root.field("grp").unwrap().color_value(), None);
}
