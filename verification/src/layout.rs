//! The schema side of a tag: struct, field, block, array and resource
//! definitions, the field-type table, enum / flag string lists and the
//! string table they name into.
//!
//! A struct's fields are a run of [`TagLayout::fields`] starting at its
//! `first_field_index` and ending at the first `Terminator` field. Every
//! field of a struct has a byte `offset` inside the struct's `size`-byte
//! region; the well-formedness predicate [`TagLayout::wf`] says that the
//! indices stored in the tables are in range and that every field's
//! bytes lie inside its struct.
use vstd::prelude::*;

use crate::fields::TagFieldType;
use crate::text::str_eq;

verus! {

/// One field of a struct definition.
#[derive(Debug, Clone, Copy)]
pub struct TagFieldLayout {
    /// String-table offset of the field's name.
    pub name_offset: u32,
    /// Index into [`TagLayout::field_types`].
    pub type_index: u32,
    /// Type-dependent index: the nested struct, block, array or resource
    /// layout, or the string list of an enum / flags field.
    pub definition: u32,
    /// Byte offset of the field inside its struct.
    pub offset: u32,
    /// Resolved type.
    pub field_type: TagFieldType,
}

/// One struct definition.
#[derive(Debug, Clone, Copy)]
pub struct TagStructLayout {
    /// Its own index in [`TagLayout::struct_layouts`].
    pub index: u32,
    /// String-table offset of the struct's name.
    pub name_offset: u32,
    /// Index of its first field in [`TagLayout::fields`].
    pub first_field_index: u32,
    /// Size in bytes of one instance.
    pub size: usize,
}

/// One block definition: a variable-count list of one struct.
#[derive(Debug, Clone, Copy)]
pub struct TagBlockLayout {
    /// Its own index in [`TagLayout::block_layouts`].
    pub index: u32,
    /// The element struct.
    pub struct_index: u32,
}

/// One inline array definition: `count` instances of one struct.
#[derive(Debug, Clone, Copy)]
pub struct TagArrayLayout {
    pub struct_index: u32,
    pub count: u32,
}

/// One pageable-resource definition.
#[derive(Debug, Clone, Copy)]
pub struct TagResourceLayout {
    pub struct_index: u32,
}

/// One entry of the field-type table.
#[derive(Debug, Clone, Copy)]
pub struct TagFieldTypeLayout {
    /// String-table offset of the type name (e.g. `"short integer"`).
    pub name_offset: u32,
    /// Bytes the type occupies inline in a struct.
    pub size: u32,
    /// Nonzero when values of this type live in a sub-chunk.
    pub needs_sub_chunk: u32,
}

/// The option names of an enum or flags field: `count` entries of
/// [`TagLayout::string_offsets`] starting at `first`.
#[derive(Debug, Clone, Copy)]
pub struct TagStringList {
    pub first: u32,
    pub count: u32,
}

/// Layout-wide header data.
#[derive(Debug, Clone, Copy)]
pub struct TagLayoutHeader {
    /// The block whose single element is a tag's root struct.
    pub tag_group_block_index: u32,
}

/// One string of the string table, with the offset that names it.
#[derive(Debug, Clone)]
pub struct TagLayoutString {
    pub offset: u32,
    pub text: String,
}

/// A complete tag layout.
#[derive(Debug, Clone)]
pub struct TagLayout {
    pub header: TagLayoutHeader,
    pub fields: Vec<TagFieldLayout>,
    pub struct_layouts: Vec<TagStructLayout>,
    pub block_layouts: Vec<TagBlockLayout>,
    pub array_layouts: Vec<TagArrayLayout>,
    pub resource_layouts: Vec<TagResourceLayout>,
    pub field_types: Vec<TagFieldTypeLayout>,
    pub string_lists: Vec<TagStringList>,
    pub string_offsets: Vec<u32>,
    pub strings: Vec<TagLayoutString>,
}

/// The text of the first string-table entry named by `offset`.
pub open spec fn string_at(strings: Seq<TagLayoutString>, offset: u32) -> Option<Seq<char>>
    decreases strings.len(),
{
    if strings.len() == 0 {
        None
    } else if strings[0].offset == offset {
        Some(strings[0].text@)
    } else {
        string_at(strings.drop_first(), offset)
    }
}

impl TagLayout {
    /// The string named by `offset`, if the table has one.
    pub open spec fn spec_get_string(&self, offset: u32) -> Option<Seq<char>> {
        string_at(self.strings@, offset)
    }

    /// No field in `fields[from..to]` is a terminator.
    pub open spec fn no_terminator_between(&self, from: int, to: int) -> bool {
        forall|j: int| from <= j < to ==> (#[trigger] self.fields@[j]).field_type != TagFieldType::Terminator
    }

    /// Field `i` belongs to struct `s`: it lies at or after the struct's
    /// first field, with no terminator from there up to and including it.
    pub open spec fn field_of_struct(&self, s: int, i: int) -> bool {
        &&& 0 <= s < self.struct_layouts@.len()
        &&& self.struct_layouts@[s].first_field_index <= i < self.fields@.len()
        &&& self.no_terminator_between(self.struct_layouts@[s].first_field_index as int, i + 1)
    }

    /// Struct `s`'s field run ends in a terminator.
    pub open spec fn struct_terminated(&self, s: int) -> bool {
        exists|t: int|
            self.struct_layouts@[s].first_field_index <= t < self.fields@.len()
                && (#[trigger] self.fields@[t]).field_type == TagFieldType::Terminator
    }

    /// Size in bytes of one element of array layout `a`.
    pub open spec fn array_element_size(&self, a: int) -> int {
        self.struct_layouts@[self.array_layouts@[a].struct_index as int].size as int
    }

    /// Bytes field `i` occupies inline.
    pub open spec fn field_extent(&self, i: int) -> int {
        let f = self.fields@[i];
        match f.field_type {
            TagFieldType::Struct => self.struct_layouts@[f.definition as int].size as int,
            TagFieldType::Array => self.array_element_size(f.definition as int)
                * (self.array_layouts@[f.definition as int].count as int),
            TagFieldType::Terminator => 0,
            _ => self.field_types@[f.type_index as int].size as int,
        }
    }

    /// Bytes the field's value needs inline, by type.
    pub open spec fn value_width(t: TagFieldType) -> int {
        match t {
            TagFieldType::CharInteger | TagFieldType::CharEnum | TagFieldType::ByteFlags
            | TagFieldType::ByteBlockFlags | TagFieldType::CharBlockIndex | TagFieldType::CustomCharBlockIndex => 1,
            TagFieldType::ShortInteger | TagFieldType::ShortEnum | TagFieldType::WordFlags
            | TagFieldType::WordBlockFlags | TagFieldType::ShortBlockIndex | TagFieldType::CustomShortBlockIndex => 2,
            TagFieldType::LongInteger | TagFieldType::LongEnum | TagFieldType::LongFlags | TagFieldType::Tag
            | TagFieldType::LongBlockFlags | TagFieldType::LongBlockIndex | TagFieldType::CustomLongBlockIndex
            | TagFieldType::Point2d | TagFieldType::RgbColor | TagFieldType::ArgbColor | TagFieldType::Angle
            | TagFieldType::Real | TagFieldType::RealSlider | TagFieldType::RealFraction => 4,
            TagFieldType::Rectangle2d => 8,
            TagFieldType::Int64Integer => 8,
            TagFieldType::String => 32,
            TagFieldType::LongString => 256,
            _ => 0,
        }
    }

    /// The table indices stored in field `i` are in range for its type.
    pub open spec fn field_refs_valid(&self, i: int) -> bool {
        let f = self.fields@[i];
        &&& f.type_index < self.field_types@.len()
        &&& Self::value_width(f.field_type) <= self.field_types@[f.type_index as int].size
        &&& f.field_type == TagFieldType::Struct ==> f.definition < self.struct_layouts@.len()
        &&& f.field_type == TagFieldType::Block ==> f.definition < self.block_layouts@.len()
        &&& f.field_type == TagFieldType::Array ==> f.definition < self.array_layouts@.len()
        &&& f.field_type == TagFieldType::PageableResource ==> f.definition < self.resource_layouts@.len()
    }

    /// Well-formedness of the tables.
    pub open spec fn wf(&self) -> bool {
        &&& forall|s: int|
            0 <= s < self.struct_layouts@.len() ==> {
                &&& (#[trigger] self.struct_layouts@[s]).index == s
                &&& self.struct_terminated(s)
            }
        &&& forall|b: int|
            0 <= b < self.block_layouts@.len() ==> {
                &&& (#[trigger] self.block_layouts@[b]).index == b
                &&& self.block_layouts@[b].struct_index < self.struct_layouts@.len()
            }
        &&& forall|a: int|
            0 <= a < self.array_layouts@.len() ==> (#[trigger] self.array_layouts@[a]).struct_index
                < self.struct_layouts@.len()
        &&& forall|r: int|
            0 <= r < self.resource_layouts@.len() ==> (#[trigger] self.resource_layouts@[r]).struct_index
                < self.struct_layouts@.len()
        &&& forall|s: int, i: int|
            #[trigger] self.field_of_struct(s, i) ==> {
                &&& self.field_refs_valid(i)
                &&& self.fields@[i].offset + self.field_extent(i) <= self.struct_layouts@[s].size
            }
        &&& self.header.tag_group_block_index < self.block_layouts@.len()
        &&& self.fields@.len() <= u32::MAX
        &&& forall|l: int|
            0 <= l < self.string_lists@.len() ==> (#[trigger] self.string_lists@[l]).first + self.string_lists@[l].count
                <= u32::MAX
        &&& self.struct_layouts@.len() <= u32::MAX
        &&& self.block_layouts@.len() <= u32::MAX
    }

    /// The string named by `offset`, if any (the first table entry with
    /// that offset).
    pub fn get_string(&self, offset: u32) -> (r: Option<&str>)
        ensures
            r matches Some(s) ==> self.spec_get_string(offset) == Some(s@),
            r is None ==> self.spec_get_string(offset) is None,
    {
        let mut i: usize = 0;
        assert(self.strings@.skip(0) =~= self.strings@);
        while i < self.strings.len()
            invariant
                i <= self.strings@.len(),
                string_at(self.strings@.skip(i as int), offset) == self.spec_get_string(offset),
            decreases self.strings@.len() - i,
        {
            assert(self.strings@.skip(i as int).drop_first() =~= self.strings@.skip(i + 1));
            if self.strings[i].offset == offset {
                return Some(self.strings[i].text.as_str());
            }
            i = i + 1;
        }
        None
    }

    /// The string named by `offset`, or `""`.
    pub fn string_or_empty(&self, offset: u32) -> (r: &str)
        ensures
            r@ == match self.spec_get_string(offset) {
                Some(s) => s,
                None => Seq::empty(),
            },
    {
        match self.get_string(offset) {
            Some(s) => s,
            None => {
                proof {
                    reveal_strlit("");
                }
                ""
            },
        }
    }

    /// Whether the string named by `offset` exists and equals `name`.
    pub fn string_is(&self, offset: u32, name: &str) -> (r: bool)
        ensures
            r == (self.spec_get_string(offset) == Some(name@)),
    {
        match self.get_string(offset) {
            Some(s) => str_eq(s, name),
            None => false,
        }
    }
}

impl TagLayout {
    /// Whether the field walk stops at index `i` (past the table or at a
    /// terminator).
    pub open spec fn run_ends_at(&self, i: int) -> bool {
        i < 0 || i >= self.fields@.len() || self.fields@[i].field_type == TagFieldType::Terminator
    }

    /// Indices of the fields from `i` up to the next terminator.
    pub open spec fn run_from(&self, i: int) -> Seq<int>
        decreases self.fields@.len() - i,
    {
        if self.run_ends_at(i) {
            Seq::empty()
        } else {
            seq![i] + self.run_from(i + 1)
        }
    }

    /// Indices of the user-addressable (not hidden) fields from `i` up to
    /// the next terminator.
    pub open spec fn visible_run_from(&self, i: int) -> Seq<int>
        decreases self.fields@.len() - i,
    {
        if self.run_ends_at(i) {
            Seq::empty()
        } else if self.fields@[i].field_type.spec_is_hidden() {
            self.visible_run_from(i + 1)
        } else {
            seq![i] + self.visible_run_from(i + 1)
        }
    }

    /// The first field from `i` up to the next terminator whose name is
    /// `name`.
    pub open spec fn named_from(&self, i: int, name: Seq<char>) -> Option<int>
        decreases self.fields@.len() - i,
    {
        if self.run_ends_at(i) {
            None
        } else if self.spec_get_string(self.fields@[i].name_offset) == Some(name) {
            Some(i)
        } else {
            self.named_from(i + 1, name)
        }
    }

    /// Non-empty names of the user-addressable fields from `i` up to the
    /// next terminator (fields whose name is missing are skipped).
    pub open spec fn names_from(&self, i: int) -> Seq<Seq<char>>
        decreases self.fields@.len() - i,
    {
        if self.run_ends_at(i) {
            Seq::empty()
        } else if self.fields@[i].field_type.spec_is_hidden() {
            self.names_from(i + 1)
        } else {
            match self.spec_get_string(self.fields@[i].name_offset) {
                Some(n) => if n.len() > 0 {
                    seq![n] + self.names_from(i + 1)
                } else {
                    self.names_from(i + 1)
                },
                None => self.names_from(i + 1),
            }
        }
    }

    /// First field index of struct `s`.
    pub open spec fn first_field(&self, s: int) -> int {
        self.struct_layouts@[s].first_field_index as int
    }

    /// All fields of struct `s`, in declaration order.
    pub open spec fn struct_fields(&self, s: int) -> Seq<int> {
        self.run_from(self.first_field(s))
    }

    /// The user-addressable fields of struct `s`, in declaration order.
    pub open spec fn visible_fields(&self, s: int) -> Seq<int> {
        self.visible_run_from(self.first_field(s))
    }

    /// Option names of the enum / flags field `fi`: one entry per string
    /// of its string list, `""` where the string is missing. Empty when
    /// the field's definition names no string list.
    pub open spec fn option_names(&self, fi: int) -> Seq<Seq<char>> {
        let d = self.fields@[fi].definition as int;
        if d < self.string_lists@.len() {
            let sl = self.string_lists@[d];
            Seq::new(
                sl.count as nat,
                |k: int| {
                    let idx = sl.first + k;
                    if idx < self.string_offsets@.len() {
                        match self.spec_get_string(self.string_offsets@[idx]) {
                            Some(n) => n,
                            None => Seq::empty(),
                        }
                    } else {
                        Seq::empty()
                    }
                },
            )
        } else {
            Seq::empty()
        }
    }
}

/// Inside a struct's run, a terminator lies at or after `i`.
pub proof fn lemma_run_has_end(layout: &TagLayout, s: int, i: int) -> (t: int)
    requires
        layout.wf(),
        0 <= s < layout.struct_layouts@.len(),
        layout.first_field(s) <= i,
        layout.no_terminator_between(layout.first_field(s), i),
    ensures
        i <= t < layout.fields@.len(),
        layout.fields@[t].field_type == TagFieldType::Terminator,
{
    assert(layout.struct_terminated(s));
    let t = choose|t: int|
        layout.struct_layouts@[s].first_field_index <= t < layout.fields@.len()
            && (#[trigger] layout.fields@[t]).field_type == TagFieldType::Terminator;
    if t < i {
        assert(layout.fields@[t].field_type != TagFieldType::Terminator);
    }
    t
}

impl TagLayout {
    /// Option name `k` of string list `l`: `""` where the offset or the
    /// string is missing.
    pub open spec fn list_name(&self, l: int, k: int) -> Seq<char> {
        let idx = self.string_lists@[l].first + k;
        if idx < self.string_offsets@.len() {
            match self.spec_get_string(self.string_offsets@[idx]) {
                Some(n) => n,
                None => Seq::empty(),
            }
        } else {
            Seq::empty()
        }
    }

    /// The first bit of field `fi`'s string list, at or after `b`, whose
    /// option is named `name` (case-sensitive).
    pub open spec fn flag_named_from(&self, fi: int, b: int, name: Seq<char>) -> Option<u32>
        decreases self.string_lists@[self.fields@[fi].definition as int].count - b,
    {
        let d = self.fields@[fi].definition as int;
        if d >= self.string_lists@.len() || b < 0 || b >= self.string_lists@[d].count {
            None
        } else {
            let idx = self.string_lists@[d].first + b;
            if idx < self.string_offsets@.len() && self.spec_get_string(self.string_offsets@[idx]) == Some(name) {
                Some(b as u32)
            } else {
                self.flag_named_from(fi, b + 1, name)
            }
        }
    }

    /// Name of option `k` of string list `l`, or `""`.
    pub fn list_name_at(&self, l: usize, k: u32) -> (r: &str)
        requires
            self.wf(),
            l < self.string_lists@.len(),
            k < self.string_lists@[l as int].count,
        ensures
            r@ == self.list_name(l as int, k as int),
    {
        let sl = self.string_lists[l];
        let idx = (sl.first + k) as usize;
        if idx < self.string_offsets.len() {
            self.string_or_empty(self.string_offsets[idx])
        } else {
            proof {
                reveal_strlit("");
            }
            ""
        }
    }

    /// The option names of field `fi`'s string list ([`Self::option_names`]).
    pub fn field_option_names(&self, fi: usize) -> (r: Vec<&str>)
        requires
            self.wf(),
            fi < self.fields@.len(),
        ensures
            r@.len() == self.option_names(fi as int).len(),
            forall|k: int| 0 <= k < r@.len() ==> (#[trigger] r@[k])@ == self.option_names(fi as int)[k],
    {
        let d = self.fields[fi].definition as usize;
        let mut out: Vec<&str> = Vec::new();
        if d >= self.string_lists.len() {
            return out;
        }
        let count = self.string_lists[d].count;
        let mut k: u32 = 0;
        while k < count
            invariant
                self.wf(),
                d == self.fields@[fi as int].definition,
                d < self.string_lists@.len(),
                count == self.string_lists@[d as int].count,
                k <= count,
                out@.len() == k,
                forall|j: int| 0 <= j < k ==> (#[trigger] out@[j])@ == self.list_name(d as int, j),
            decreases count - k,
        {
            out.push(self.list_name_at(d, k));
            k = k + 1;
        }
        proof {
            assert forall|j: int| 0 <= j < out@.len() implies (#[trigger] out@[j])@ == self.option_names(fi as int)[j] by {
                assert(self.option_names(fi as int)[j] == self.list_name(d as int, j));
            }
        }
        out
    }

    /// The bit of field `fi` whose flag option is named `name`.
    pub fn find_flag_bit(&self, fi: usize, name: &str) -> (r: Option<u32>)
        requires
            self.wf(),
            fi < self.fields@.len(),
        ensures
            r == self.flag_named_from(fi as int, 0, name@),
    {
        let d = self.fields[fi].definition as usize;
        if d >= self.string_lists.len() {
            return None;
        }
        let sl = self.string_lists[d];
        let mut b: u32 = 0;
        while b < sl.count
            invariant
                self.wf(),
                d == self.fields@[fi as int].definition,
                d < self.string_lists@.len(),
                sl == self.string_lists@[d as int],
                b <= sl.count,
                self.flag_named_from(fi as int, 0, name@) == self.flag_named_from(fi as int, b as int, name@),
            decreases sl.count - b,
        {
            let idx = (sl.first + b) as usize;
            if idx < self.string_offsets.len() && self.string_is(self.string_offsets[idx], name) {
                return Some(b);
            }
            b = b + 1;
        }
        None
    }
}

impl TagLayout {
    /// The first field from `i` up to the next terminator whose name's
    /// UTF-8 bytes are `name`.
    pub open spec fn named_bytes_from(&self, i: int, name: Seq<u8>) -> Option<int>
        decreases self.fields@.len() - i,
    {
        if self.run_ends_at(i) {
            None
        } else if (self.spec_get_string(self.fields@[i].name_offset) matches Some(n) && vstd::utf8::encode_utf8(n)
            == name) {
            Some(i)
        } else {
            self.named_bytes_from(i + 1, name)
        }
    }

    /// Whether the string named by `offset` exists and its UTF-8 bytes
    /// are `name`.
    pub fn string_bytes_is(&self, offset: u32, name: &[u8]) -> (r: bool)
        ensures
            r == (self.spec_get_string(offset) matches Some(n) && vstd::utf8::encode_utf8(n) == name@),
    {
        match self.get_string(offset) {
            Some(s) => {
                let b = s.as_bytes();
                if b.len() != name.len() {
                    assert(b@.len() != name@.len());
                    return false;
                }
                let mut k: usize = 0;
                while k < b.len()
                    invariant
                        k <= b@.len(),
                        b@.len() == name@.len(),
                        b@ == vstd::utf8::encode_utf8(s@),
                        self.spec_get_string(offset) == Some(s@),
                        forall|j: int| 0 <= j < k ==> b@[j] == name@[j],
                    decreases b@.len() - k,
                {
                    if b[k] != name[k] {
                        assert(b@[k as int] != name@[k as int]);
                        assert(b@ != name@);
                        return false;
                    }
                    k = k + 1;
                }
                assert(b@ =~= name@);
                true
            },
            None => false,
        }
    }
}

} // verus!
