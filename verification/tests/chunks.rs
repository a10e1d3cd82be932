use blam_tags::bytes::Endian;
use blam_tags::chunk::{write_chunk, write_chunk_header, TGBL, TGST};
use blam_tags::data::{TagBlockData, TagResourceChunk, TagStructData, TagSubChunkContent, TagSubChunkEntry};

fn header(sig: &[u8; 4], version: u32, size: u32) -> Vec<u8> {
    let mut v = u32::from_be_bytes(*sig).to_le_bytes().to_vec();
    v.extend_from_slice(&version.to_le_bytes());
    v.extend_from_slice(&size.to_le_bytes());
    v
}

fn leaf(sig: &[u8; 4], payload: &[u8]) -> Vec<u8> {
    let mut v = header(sig, 0, payload.len() as u32);
    v.extend_from_slice(payload);
    v
}

fn entry(field_index: Option<u32>, content: TagSubChunkContent) -> TagSubChunkEntry {
    TagSubChunkEntry { field_index, content }
}

#[test]
fn chunk_header_is_three_little_endian_words() {
    let mut out = vec![9u8];
    write_chunk_header(&mut out, TGST, 5, 7);
    assert_eq!(out, [vec![9u8], header(b"tgst", 5, 7)].concat());
    let mut out = Vec::new();
    write_chunk(&mut out, TGBL, 0, &[1, 2, 3]);
    assert_eq!(out, leaf(b"tgbl", &[1, 2, 3]));
}

#[test]
fn struct_writes_its_sub_chunks_inside_a_tgst() {
    let d = TagStructData {
        struct_index: 0,
        sub_chunks: vec![
            entry(None, TagSubChunkContent::EmptyPlaceholder),
            entry(Some(1), TagSubChunkContent::TagReference(b"tibm".to_vec())),
            entry(Some(2), TagSubChunkContent::StringId(b"idle".to_vec())),
            entry(Some(3), TagSubChunkContent::Data(vec![])),
            entry(Some(4), TagSubChunkContent::Resource(TagResourceChunk::Null)),
        ],
    };
    let content = [
        header(b"tgst", 0, 0),
        leaf(b"tgrf", b"tibm"),
        leaf(b"tgsi", b"idle"),
        leaf(b"tgda", b""),
        header(b"tg\0c", 0, 0),
    ]
    .concat();
    let mut out = Vec::new();
    d.write(&mut out);
    assert_eq!(out, [header(b"tgst", content.len() as u32, content.len() as u32), content].concat());
}

#[test]
fn empty_struct_is_a_bare_tgst_header() {
    let d = TagStructData { struct_index: 3, sub_chunks: vec![] };
    let mut out = Vec::new();
    d.write(&mut out);
    assert_eq!(out, header(b"tgst", 0, 0));
}

#[test]
fn arrays_inline_their_element_sub_chunks() {
    let el = |s: &[u8]| TagStructData {
        struct_index: 1,
        sub_chunks: vec![entry(Some(5), TagSubChunkContent::StringId(s.to_vec()))],
    };
    let d = TagStructData {
        struct_index: 0,
        sub_chunks: vec![entry(Some(0), TagSubChunkContent::Array(vec![el(b"a"), el(b"bc")]))],
    };
    let content = [leaf(b"tgsi", b"a"), leaf(b"tgsi", b"bc")].concat();
    let mut out = Vec::new();
    d.write(&mut out);
    assert_eq!(out, [header(b"tgst", content.len() as u32, content.len() as u32), content].concat());
}

fn block(flags: u32) -> TagBlockData {
    let el = TagStructData { struct_index: 1, sub_chunks: vec![] };
    TagBlockData {
        block_index: 0,
        flags,
        raw_data: vec![1, 2, 3, 4],
        endian: Endian::Le,
        elements: vec![el, TagStructData { struct_index: 1, sub_chunks: vec![] }],
        classic_block_header: None,
    }
}

#[test]
fn complex_block_writes_one_tgst_per_element() {
    let mut body = 2u32.to_le_bytes().to_vec();
    body.extend_from_slice(&0u32.to_le_bytes());
    body.extend_from_slice(&[1, 2, 3, 4]);
    body.extend_from_slice(&header(b"tgst", 0, 0));
    body.extend_from_slice(&header(b"tgst", 0, 0));
    let mut out = Vec::new();
    block(0).write(&mut out);
    assert_eq!(out, leaf(b"tgbl", &body));
}

#[test]
fn simple_block_writes_bytes_only() {
    let mut body = 2u32.to_le_bytes().to_vec();
    body.extend_from_slice(&1u32.to_le_bytes());
    body.extend_from_slice(&[1, 2, 3, 4]);
    let mut out = Vec::new();
    block(1).write(&mut out);
    assert_eq!(out, leaf(b"tgbl", &body));
}

#[test]
fn exploded_resource_nests_tgdt_and_tgst_in_tgrc() {
    let res = TagSubChunkContent::Resource(TagResourceChunk::Exploded {
        exploded: vec![7, 8],
        struct_data: TagStructData { struct_index: 2, sub_chunks: vec![] },
    });
    let d = TagStructData { struct_index: 0, sub_chunks: vec![entry(Some(0), res)] };
    let inner = [leaf(b"tgdt", &[7, 8]), header(b"tgst", 0, 0)].concat();
    let content = leaf(b"tgrc", &inner);
    let mut out = Vec::new();
    d.write(&mut out);
    assert_eq!(out, [header(b"tgst", content.len() as u32, content.len() as u32), content].concat());
}
