//! Field types of the tag schema and the small value codecs that sit on
//! top of the raw struct bytes: tag-reference and string-id payloads,
//! group tags, and enum / flag option names.
use vstd::prelude::*;
use vstd::utf8::{decode_utf8, encode_utf8, valid_utf8};

use crate::bytes::{be_u32, le_u32, lemma_le_u32_roundtrip, push_u32_le, read_u32_be, read_u32_le, u32_be_bytes,
    u32_le_bytes, u32_to_be};
use crate::text::str_eq;

verus! {

/// Resolved type of a layout field, named after the schema's type-name
/// strings (`"real point 3d"` is `RealPoint3d`). `Unknown` is the
/// fallback for an unrecognized name.
#[derive(Debug, PartialEq, Eq, Clone, Copy, Structural)]
pub enum TagFieldType {
    Unknown,
    String,
    LongString,
    StringId,
    OldStringId,
    CharInteger,
    ShortInteger,
    LongInteger,
    Int64Integer,
    Angle,
    Tag,
    CharEnum,
    ShortEnum,
    LongEnum,
    LongFlags,
    WordFlags,
    ByteFlags,
    Point2d,
    Rectangle2d,
    RgbColor,
    ArgbColor,
    Real,
    RealSlider,
    RealFraction,
    RealPoint2d,
    RealPoint3d,
    RealVector2d,
    RealVector3d,
    RealQuaternion,
    RealEulerAngles2d,
    RealEulerAngles3d,
    RealPlane2d,
    RealPlane3d,
    RealRgbColor,
    RealArgbColor,
    RealHsvColor,
    RealAhsvColor,
    ShortIntegerBounds,
    AngleBounds,
    RealBounds,
    FractionBounds,
    TagReference,
    Block,
    LongBlockFlags,
    WordBlockFlags,
    ByteBlockFlags,
    CharBlockIndex,
    CustomCharBlockIndex,
    ShortBlockIndex,
    CustomShortBlockIndex,
    LongBlockIndex,
    CustomLongBlockIndex,
    Data,
    VertexBuffer,
    Pad,
    UselessPad,
    Skip,
    Explanation,
    Custom,
    Struct,
    Array,
    PageableResource,
    ApiInterop,
    Terminator,
}

/// The field type a schema type-name denotes.
pub open spec fn field_type_named(name: Seq<char>) -> TagFieldType {
    if name == "string"@ {
        TagFieldType::String
    }
    else if name == "long string"@ {
        TagFieldType::LongString
    }
    else if name == "string id"@ {
        TagFieldType::StringId
    }
    else if name == "old string id"@ {
        TagFieldType::OldStringId
    }
    else if name == "char integer"@ {
        TagFieldType::CharInteger
    }
    else if name == "short integer"@ {
        TagFieldType::ShortInteger
    }
    else if name == "long integer"@ {
        TagFieldType::LongInteger
    }
    else if name == "int64 integer"@ {
        TagFieldType::Int64Integer
    }
    else if name == "angle"@ {
        TagFieldType::Angle
    }
    else if name == "tag"@ {
        TagFieldType::Tag
    }
    else if name == "char enum"@ {
        TagFieldType::CharEnum
    }
    else if name == "short enum"@ {
        TagFieldType::ShortEnum
    }
    else if name == "long enum"@ {
        TagFieldType::LongEnum
    }
    else if name == "long flags"@ {
        TagFieldType::LongFlags
    }
    else if name == "word flags"@ {
        TagFieldType::WordFlags
    }
    else if name == "byte flags"@ {
        TagFieldType::ByteFlags
    }
    else if name == "point 2d"@ {
        TagFieldType::Point2d
    }
    else if name == "rectangle 2d"@ {
        TagFieldType::Rectangle2d
    }
    else if name == "rgb color"@ {
        TagFieldType::RgbColor
    }
    else if name == "argb color"@ {
        TagFieldType::ArgbColor
    }
    else if name == "real"@ {
        TagFieldType::Real
    }
    else if name == "real slider"@ {
        TagFieldType::RealSlider
    }
    else if name == "real fraction"@ {
        TagFieldType::RealFraction
    }
    else if name == "real point 2d"@ {
        TagFieldType::RealPoint2d
    }
    else if name == "real point 3d"@ {
        TagFieldType::RealPoint3d
    }
    else if name == "real vector 2d"@ {
        TagFieldType::RealVector2d
    }
    else if name == "real vector 3d"@ {
        TagFieldType::RealVector3d
    }
    else if name == "real quaternion"@ {
        TagFieldType::RealQuaternion
    }
    else if name == "real euler angles 2d"@ {
        TagFieldType::RealEulerAngles2d
    }
    else if name == "real euler angles 3d"@ {
        TagFieldType::RealEulerAngles3d
    }
    else if name == "real plane 2d"@ {
        TagFieldType::RealPlane2d
    }
    else if name == "real plane 3d"@ {
        TagFieldType::RealPlane3d
    }
    else if name == "real rgb color"@ {
        TagFieldType::RealRgbColor
    }
    else if name == "real argb color"@ {
        TagFieldType::RealArgbColor
    }
    else if name == "real hsv color"@ {
        TagFieldType::RealHsvColor
    }
    else if name == "real ahsv color"@ {
        TagFieldType::RealAhsvColor
    }
    else if name == "short integer bounds"@ {
        TagFieldType::ShortIntegerBounds
    }
    else if name == "angle bounds"@ {
        TagFieldType::AngleBounds
    }
    else if name == "real bounds"@ {
        TagFieldType::RealBounds
    }
    else if name == "fraction bounds"@ {
        TagFieldType::FractionBounds
    }
    else if name == "tag reference"@ {
        TagFieldType::TagReference
    }
    else if name == "block"@ {
        TagFieldType::Block
    }
    else if name == "long block flags"@ {
        TagFieldType::LongBlockFlags
    }
    else if name == "word block flags"@ {
        TagFieldType::WordBlockFlags
    }
    else if name == "byte block flags"@ {
        TagFieldType::ByteBlockFlags
    }
    else if name == "char block index"@ {
        TagFieldType::CharBlockIndex
    }
    else if name == "custom char block index"@ {
        TagFieldType::CustomCharBlockIndex
    }
    else if name == "short block index"@ {
        TagFieldType::ShortBlockIndex
    }
    else if name == "custom short block index"@ {
        TagFieldType::CustomShortBlockIndex
    }
    else if name == "long block index"@ {
        TagFieldType::LongBlockIndex
    }
    else if name == "custom long block index"@ {
        TagFieldType::CustomLongBlockIndex
    }
    else if name == "data"@ {
        TagFieldType::Data
    }
    else if name == "vertex buffer"@ {
        TagFieldType::VertexBuffer
    }
    else if name == "pad"@ {
        TagFieldType::Pad
    }
    else if name == "useless pad"@ {
        TagFieldType::UselessPad
    }
    else if name == "skip"@ {
        TagFieldType::Skip
    }
    else if name == "explanation"@ {
        TagFieldType::Explanation
    }
    else if name == "custom"@ {
        TagFieldType::Custom
    }
    else if name == "struct"@ {
        TagFieldType::Struct
    }
    else if name == "array"@ {
        TagFieldType::Array
    }
    else if name == "pageable resource"@ {
        TagFieldType::PageableResource
    }
    else if name == "api interop"@ {
        TagFieldType::ApiInterop
    }
    else if name == "terminator X"@ {
        TagFieldType::Terminator
    }
    else {
        TagFieldType::Unknown
    }
}

impl TagFieldType {
    /// Parse a field-type name into the dispatch enum; an unrecognized
    /// name gives [`TagFieldType::Unknown`].
    pub fn from_name(name: &str) -> (r: Self)
        ensures
            r == field_type_named(name@),
    {
        if str_eq(name, "string") {
            Self::String
        }
        else if str_eq(name, "long string") {
            Self::LongString
        }
        else if str_eq(name, "string id") {
            Self::StringId
        }
        else if str_eq(name, "old string id") {
            Self::OldStringId
        }
        else if str_eq(name, "char integer") {
            Self::CharInteger
        }
        else if str_eq(name, "short integer") {
            Self::ShortInteger
        }
        else if str_eq(name, "long integer") {
            Self::LongInteger
        }
        else if str_eq(name, "int64 integer") {
            Self::Int64Integer
        }
        else if str_eq(name, "angle") {
            Self::Angle
        }
        else if str_eq(name, "tag") {
            Self::Tag
        }
        else if str_eq(name, "char enum") {
            Self::CharEnum
        }
        else if str_eq(name, "short enum") {
            Self::ShortEnum
        }
        else if str_eq(name, "long enum") {
            Self::LongEnum
        }
        else if str_eq(name, "long flags") {
            Self::LongFlags
        }
        else if str_eq(name, "word flags") {
            Self::WordFlags
        }
        else if str_eq(name, "byte flags") {
            Self::ByteFlags
        }
        else if str_eq(name, "point 2d") {
            Self::Point2d
        }
        else if str_eq(name, "rectangle 2d") {
            Self::Rectangle2d
        }
        else if str_eq(name, "rgb color") {
            Self::RgbColor
        }
        else if str_eq(name, "argb color") {
            Self::ArgbColor
        }
        else if str_eq(name, "real") {
            Self::Real
        }
        else if str_eq(name, "real slider") {
            Self::RealSlider
        }
        else if str_eq(name, "real fraction") {
            Self::RealFraction
        }
        else if str_eq(name, "real point 2d") {
            Self::RealPoint2d
        }
        else if str_eq(name, "real point 3d") {
            Self::RealPoint3d
        }
        else if str_eq(name, "real vector 2d") {
            Self::RealVector2d
        }
        else if str_eq(name, "real vector 3d") {
            Self::RealVector3d
        }
        else if str_eq(name, "real quaternion") {
            Self::RealQuaternion
        }
        else if str_eq(name, "real euler angles 2d") {
            Self::RealEulerAngles2d
        }
        else if str_eq(name, "real euler angles 3d") {
            Self::RealEulerAngles3d
        }
        else if str_eq(name, "real plane 2d") {
            Self::RealPlane2d
        }
        else if str_eq(name, "real plane 3d") {
            Self::RealPlane3d
        }
        else if str_eq(name, "real rgb color") {
            Self::RealRgbColor
        }
        else if str_eq(name, "real argb color") {
            Self::RealArgbColor
        }
        else if str_eq(name, "real hsv color") {
            Self::RealHsvColor
        }
        else if str_eq(name, "real ahsv color") {
            Self::RealAhsvColor
        }
        else if str_eq(name, "short integer bounds") {
            Self::ShortIntegerBounds
        }
        else if str_eq(name, "angle bounds") {
            Self::AngleBounds
        }
        else if str_eq(name, "real bounds") {
            Self::RealBounds
        }
        else if str_eq(name, "fraction bounds") {
            Self::FractionBounds
        }
        else if str_eq(name, "tag reference") {
            Self::TagReference
        }
        else if str_eq(name, "block") {
            Self::Block
        }
        else if str_eq(name, "long block flags") {
            Self::LongBlockFlags
        }
        else if str_eq(name, "word block flags") {
            Self::WordBlockFlags
        }
        else if str_eq(name, "byte block flags") {
            Self::ByteBlockFlags
        }
        else if str_eq(name, "char block index") {
            Self::CharBlockIndex
        }
        else if str_eq(name, "custom char block index") {
            Self::CustomCharBlockIndex
        }
        else if str_eq(name, "short block index") {
            Self::ShortBlockIndex
        }
        else if str_eq(name, "custom short block index") {
            Self::CustomShortBlockIndex
        }
        else if str_eq(name, "long block index") {
            Self::LongBlockIndex
        }
        else if str_eq(name, "custom long block index") {
            Self::CustomLongBlockIndex
        }
        else if str_eq(name, "data") {
            Self::Data
        }
        else if str_eq(name, "vertex buffer") {
            Self::VertexBuffer
        }
        else if str_eq(name, "pad") {
            Self::Pad
        }
        else if str_eq(name, "useless pad") {
            Self::UselessPad
        }
        else if str_eq(name, "skip") {
            Self::Skip
        }
        else if str_eq(name, "explanation") {
            Self::Explanation
        }
        else if str_eq(name, "custom") {
            Self::Custom
        }
        else if str_eq(name, "struct") {
            Self::Struct
        }
        else if str_eq(name, "array") {
            Self::Array
        }
        else if str_eq(name, "pageable resource") {
            Self::PageableResource
        }
        else if str_eq(name, "api interop") {
            Self::ApiInterop
        }
        else if str_eq(name, "terminator X") {
            Self::Terminator
        }
        else {
            Self::Unknown
        }
    }
    /// Padding, explanation and unknown fields: present in the layout
    /// but not user-addressable.
    pub open spec fn spec_is_hidden(self) -> bool {
        match self {
            TagFieldType::Pad | TagFieldType::UselessPad | TagFieldType::Skip | TagFieldType::Explanation
            | TagFieldType::Unknown => true,
            _ => false,
        }
    }

    /// See [`Self::spec_is_hidden`].
    pub fn is_hidden(self) -> (r: bool)
        ensures
            r == self.spec_is_hidden(),
    {
        match self {
            TagFieldType::Pad | TagFieldType::UselessPad | TagFieldType::Skip | TagFieldType::Explanation
            | TagFieldType::Unknown => true,
            _ => false,
        }
    }

    /// Enum fields (`char`, `short`, `long`).
    pub open spec fn spec_is_enum(self) -> bool {
        match self {
            TagFieldType::CharEnum | TagFieldType::ShortEnum | TagFieldType::LongEnum => true,
            _ => false,
        }
    }

    /// Flags fields (`byte`, `word`, `long`).
    pub open spec fn spec_is_flags(self) -> bool {
        match self {
            TagFieldType::ByteFlags | TagFieldType::WordFlags | TagFieldType::LongFlags => true,
            _ => false,
        }
    }

    /// Container fields, edited through their own handles rather than by
    /// value.
    pub open spec fn spec_is_container(self) -> bool {
        match self {
            TagFieldType::Struct | TagFieldType::Block | TagFieldType::Array | TagFieldType::PageableResource => true,
            _ => false,
        }
    }
}

//================================================================================
// Text conversions
//================================================================================

/// What `String::from_utf8_lossy` makes of `bytes`.
pub uninterp spec fn utf8_lossy(bytes: Seq<u8>) -> Seq<char>;

/// `String::from_utf8_lossy`, owned. Its result is a function of the
/// bytes, and for valid UTF-8 it is the decoding itself; what it makes of
/// an invalid sequence (replacement characters) is left unstated here.
#[verifier::external_body]
pub(crate) fn string_from_utf8_lossy(bytes: &[u8]) -> (r: String)
    ensures
        r@ == utf8_lossy(bytes@),
        valid_utf8(bytes@) ==> r@ == decode_utf8(bytes@),
{
    String::from_utf8_lossy(bytes).into_owned()
}

/// `std::str::from_utf8`, owned: the decoding when `bytes` is valid
/// UTF-8, `None` otherwise.
#[verifier::external_body]
fn string_from_utf8(bytes: &[u8]) -> (r: Option<String>)
    ensures
        r is Some <==> valid_utf8(bytes@),
        r matches Some(s) ==> s@ == decode_utf8(bytes@),
{
    match std::str::from_utf8(bytes) {
        Ok(s) => Some(s.to_string()),
        Err(_) => None,
    }
}

/// UTF-8 bytes of a string.
pub fn string_bytes(s: &String) -> (r: Vec<u8>)
    ensures
        r@ == encode_utf8(s@),
{
    let b = s.as_str().as_bytes();
    vstd::slice::slice_to_vec(b)
}

//================================================================================
// Sub-chunk payloads
//================================================================================

/// Parsed `tgrf` payload: `None` for a null reference (payload shorter
/// than the 4-byte group tag), else the group tag (little-endian on the
/// wire) and the UTF-8 path that fills the rest of the payload.
#[derive(Debug)]
pub struct TagReferenceData {
    pub group_tag_and_name: Option<(u32, String)>,
}

/// The reference a `tgrf` payload denotes.
pub open spec fn reference_of_payload(payload: Seq<u8>) -> Option<(u32, Seq<char>)> {
    if payload.len() < 4 {
        None
    } else {
        Some((le_u32(payload, 0), decode_utf8(payload.skip(4))))
    }
}

/// The `tgrf` payload of a reference.
pub open spec fn payload_of_reference(r: Option<(u32, Seq<char>)>) -> Seq<u8> {
    match r {
        None => Seq::empty(),
        Some((g, name)) => u32_le_bytes(g) + encode_utf8(name),
    }
}

impl View for TagReferenceData {
    type V = Option<(u32, Seq<char>)>;

    open spec fn view(&self) -> Option<(u32, Seq<char>)> {
        match self.group_tag_and_name {
            None => None,
            Some((g, name)) => Some((g, name@)),
        }
    }
}

impl TagReferenceData {
    /// Parse a `tgrf` payload (chunk header already consumed). The path
    /// must be valid UTF-8.
    pub fn from_bytes(payload: &[u8]) -> (r: Self)
        requires
            payload@.len() >= 4 ==> valid_utf8(payload@.skip(4)),
        ensures
            r@ == reference_of_payload(payload@),
    {
        if payload.len() < 4 {
            return Self { group_tag_and_name: None };
        }
        let group_tag = read_u32_le(payload, 0);
        let rest = vstd::slice::slice_subrange(payload, 4, payload.len());
        assert(rest@ =~= payload@.skip(4));
        let name = match string_from_utf8(rest) {
            Some(s) => s,
            None => String::new(),
        };
        Self { group_tag_and_name: Some((group_tag, name)) }
    }

    /// Serialize back to a `tgrf` payload (the caller writes the header).
    pub fn to_bytes(&self) -> (r: Vec<u8>)
        ensures
            r@ == payload_of_reference(self@),
    {
        match &self.group_tag_and_name {
            None => Vec::new(),
            Some((group_tag, name)) => {
                let mut bytes: Vec<u8> = Vec::new();
                push_u32_le(&mut bytes, *group_tag);
                let mut tail = string_bytes(name);
                bytes.append(&mut tail);
                bytes
            }
        }
    }
}

/// A reference survives serialization: parsing the payload of any
/// reference gives the reference back.
pub proof fn lemma_tag_reference_roundtrip(r: Option<(u32, Seq<char>)>)
    ensures
        reference_of_payload(payload_of_reference(r)) == r,
        payload_of_reference(r).len() >= 4 ==> valid_utf8(payload_of_reference(r).skip(4)),
{
    match r {
        None => {},
        Some((g, name)) => {
            let p = payload_of_reference(r);
            lemma_le_u32_roundtrip(g);
            assert(p.skip(4) =~= encode_utf8(name));
            assert(le_u32(p, 0) == le_u32(u32_le_bytes(g), 0));
            vstd::utf8::encode_utf8_valid_utf8(name);
            vstd::utf8::encode_utf8_decode_utf8(name);
        },
    }
}

/// A payload survives parsing: a `tgrf` payload whose path is UTF-8
/// serializes back to the same bytes, and a payload shorter than a group
/// tag is a null reference, which serializes to nothing.
pub proof fn lemma_tag_reference_payload_roundtrip(p: Seq<u8>)
    requires
        p.len() >= 4 ==> valid_utf8(p.skip(4)),
    ensures
        p.len() >= 4 ==> payload_of_reference(reference_of_payload(p)) == p,
        p.len() < 4 ==> reference_of_payload(p) is None && payload_of_reference(reference_of_payload(p)).len() == 0,
{
    if p.len() >= 4 {
        crate::bytes::lemma_le_u32_bytes(p, 0);
        vstd::utf8::decode_utf8_encode_utf8(p.skip(4));
        assert(payload_of_reference(reference_of_payload(p)) =~= p);
    }
}

/// Parsed `tgsi` payload (string id or old string id); the empty string
/// is `string_id::NONE`.
#[derive(Debug)]
pub struct StringIdData {
    pub string: String,
}

impl StringIdData {
    /// Parse a `tgsi` payload; invalid UTF-8 is replaced as
    /// `String::from_utf8_lossy` does.
    pub fn from_bytes(payload: &[u8]) -> (r: Self)
        ensures
            r.string@ == utf8_lossy(payload@),
            valid_utf8(payload@) ==> r.string@ == decode_utf8(payload@),
    {
        Self { string: string_from_utf8_lossy(payload) }
    }

    /// Serialize back to a `tgsi` payload.
    pub fn to_bytes(&self) -> (r: Vec<u8>)
        ensures
            r@ == encode_utf8(self.string@),
    {
        string_bytes(&self.string)
    }
}

/// A string id survives serialization: its payload is valid UTF-8 that
/// decodes to the same characters.
pub proof fn lemma_string_id_roundtrip(s: Seq<char>)
    ensures
        valid_utf8(encode_utf8(s)),
        decode_utf8(encode_utf8(s)) == s,
{
    vstd::utf8::encode_utf8_valid_utf8(s);
    vstd::utf8::encode_utf8_decode_utf8(s);
}

//================================================================================
// Group tags
//================================================================================

/// The four big-endian bytes of a packed group tag with its trailing
/// NUL / space padding removed.
pub open spec fn group_tag_trimmed(tag: u32) -> Seq<u8> {
    trim_padding(u32_be_bytes(tag))
}

/// `bytes` without its trailing run of NUL and space bytes.
pub open spec fn trim_padding(bytes: Seq<u8>) -> Seq<u8>
    decreases bytes.len(),
{
    if bytes.len() > 0 && (bytes.last() == 0u8 || bytes.last() == 0x20u8) {
        trim_padding(bytes.drop_last())
    } else {
        bytes
    }
}

/// Render a packed group tag (big-endian `u32`, short tags padded with
/// spaces) as text with trailing NULs and spaces removed, e.g.
/// `0x6D6F2020` is `"mo"`. Bytes that are not UTF-8 become replacement
/// characters.
pub fn format_group_tag(tag: u32) -> (r: String)
    ensures
        r@ == utf8_lossy(group_tag_trimmed(tag)),
        valid_utf8(group_tag_trimmed(tag)) ==> r@ == decode_utf8(group_tag_trimmed(tag)),
{
    let b = u32_to_be(tag);
    let mut n: usize = 4;
    assert(b@.subrange(0, 4) =~= b@);
    while n > 0 && (b[n - 1] == 0 || b[n - 1] == 0x20)
        invariant
            n <= 4,
            trim_padding(b@.subrange(0, n as int)) == trim_padding(b@),
        decreases n,
    {
        assert(b@.subrange(0, n as int).drop_last() =~= b@.subrange(0, n - 1));
        n = n - 1;
    }
    assert(b@.subrange(0, 4) =~= b@);
    let kept = vstd::slice::slice_subrange(b.as_slice(), 0, n);
    assert(trim_padding(b@.subrange(0, n as int)) == b@.subrange(0, n as int));
    string_from_utf8_lossy(kept)
}

/// Formatting inverts parsing: text of one to four UTF-8 bytes whose last
/// byte is neither NUL nor a space packs into a group tag whose trimmed
/// bytes are that text again, so [`format_group_tag`] of what
/// [`parse_group_tag`] gives is the text.
pub proof fn lemma_group_tag_roundtrip(s: Seq<char>)
    requires
        1 <= encode_utf8(s).len() <= 4,
        encode_utf8(s).last() != 0u8,
        encode_utf8(s).last() != 0x20u8,
    ensures
        group_tag_trimmed(packed_group_tag(encode_utf8(s))) == encode_utf8(s),
        valid_utf8(group_tag_trimmed(packed_group_tag(encode_utf8(s)))),
        decode_utf8(group_tag_trimmed(packed_group_tag(encode_utf8(s)))) == s,
{
    let b = encode_utf8(s);
    let padded = Seq::new(4, |i: int| if i < b.len() { b[i] } else { 0x20u8 });
    crate::bytes::lemma_be_u32_bytes(padded, 0);
    assert(padded.subrange(0, 4) =~= padded);
    let t = u32_be_bytes(packed_group_tag(b));
    assert(t == padded);
    reveal_with_fuel(trim_padding, 5);
    if b.len() == 4 {
        assert(padded =~= b);
    } else if b.len() == 3 {
        assert(padded.drop_last() =~= b);
    } else if b.len() == 2 {
        assert(padded.drop_last() =~= b.push(0x20u8));
        assert(padded.drop_last().drop_last() =~= b);
    } else {
        assert(padded.drop_last().drop_last().drop_last() =~= b);
        assert(padded.drop_last().last() == 0x20u8);
        assert(padded.drop_last().drop_last().last() == 0x20u8);
    }
    lemma_string_id_roundtrip(s);
}

/// The packed group tag of up to four bytes, right-padded with spaces.
pub open spec fn packed_group_tag(bytes: Seq<u8>) -> u32 {
    let padded = Seq::new(4, |i: int| if i < bytes.len() { bytes[i] } else { 0x20u8 });
    be_u32(padded, 0)
}

/// Parse group-tag text (1 to 4 bytes, e.g. `"bipd"` or `"mo"`) into the
/// packed big-endian `u32`, right-padding short tags with spaces. `None`
/// when the text is longer than four bytes.
pub fn parse_group_tag(s: &str) -> (r: Option<u32>)
    ensures
        encode_utf8(s@).len() > 4 <==> r is None,
        r matches Some(v) ==> v == packed_group_tag(encode_utf8(s@)),
{
    let bytes = s.as_bytes();
    if bytes.len() > 4 {
        return None;
    }
    let mut padded = [0x20u8; 4];
    let mut i: usize = 0;
    while i < bytes.len()
        invariant
            i <= bytes@.len() <= 4,
            forall|k: int| 0 <= k < i ==> #[trigger] padded@[k] == bytes@[k],
            forall|k: int| i <= k < 4 ==> #[trigger] padded@[k] == 0x20u8,
        decreases bytes@.len() - i,
    {
        padded[i] = bytes[i];
        i = i + 1;
    }
    let ghost want = Seq::new(4, |k: int| if k < bytes@.len() { bytes@[k] } else { 0x20u8 });
    assert(padded@ =~= want);
    Some(read_u32_be(padded.as_slice(), 0))
}

} // verus!
