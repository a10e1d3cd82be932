//! Concept-level access to a tag's data tree: structs, fields, blocks,
//! arrays, resources and flags, for reading ([`TagStruct`] and friends)
//! and editing ([`TagStructMut`] and friends).
//!
//! A read handle borrows the layout, the struct tree and the struct's
//! byte region; its type invariant says that the three agree.
use vstd::prelude::*;
use vstd::string::StringSliceAdditionalSpecFns;
use vstd::utf8::{decode_utf8, valid_utf8};

use crate::bytes::{le_u16, le_u32, le_u64, read_u16_le, read_u32_le, read_u64_le};
use crate::data::{
    block_element_size, block_ok, block_struct, entry_of, entry_ok, find_entry, record, struct_ok, TagBlockData,
    TagResourceChunk, TagStructData, TagSubChunkContent, TagSubChunkEntry,
};
use crate::fields::{format_group_tag, group_tag_trimmed, utf8_lossy, TagFieldType};
use crate::layout::{lemma_run_has_end, TagArrayLayout, TagBlockLayout, TagFieldLayout, TagLayout, TagStructLayout};

verus! {

/// What kind of tag this is: the packed group tag (e.g. `scnr`) and its
/// group version.
#[derive(Debug, Clone, Copy)]
pub struct TagGroup {
    /// Big-endian packed group tag, as on disk.
    pub tag: u32,
    pub version: u32,
}

impl TagGroup {
    /// The group tag as text, trailing NULs and spaces removed (what the
    /// group's `Display` form shows).
    pub fn to_string(&self) -> (r: String)
        ensures
            r@ == utf8_lossy(group_tag_trimmed(self.tag)),
    {
        format_group_tag(self.tag)
    }
}

//================================================================================
// Read-side handles
//================================================================================

/// A struct instance: the root element, a block or array element, or a
/// nested struct field.
#[derive(Clone, Copy)]
pub struct TagStruct<'a> {
    pub(crate) layout: &'a TagLayout,
    pub(crate) struct_data: &'a TagStructData,
    pub(crate) struct_raw: &'a [u8],
}

/// Handle invariant: the layout is well formed, the struct tree conforms
/// to it, and the byte region is exactly one instance long.
pub open spec fn struct_handle_ok(layout: TagLayout, d: TagStructData, raw: Seq<u8>) -> bool {
    &&& layout.wf()
    &&& struct_ok(layout, d)
    &&& raw.len() == layout.struct_layouts@[d.struct_index as int].size
}

impl<'a> TagStruct<'a> {
    #[verifier::type_invariant]
    spec fn inv(&self) -> bool {
        struct_handle_ok(*self.layout, *self.struct_data, self.struct_raw@)
    }

    /// The layout this instance conforms to.
    pub closed spec fn spec_layout(&self) -> TagLayout {
        *self.layout
    }

    /// The struct tree.
    pub closed spec fn spec_data(&self) -> TagStructData {
        *self.struct_data
    }

    /// The instance's bytes.
    pub closed spec fn spec_raw(&self) -> Seq<u8> {
        self.struct_raw@
    }

    /// Index of the struct definition.
    pub open spec fn spec_struct_index(&self) -> int {
        self.spec_data().struct_index as int
    }

    /// Build a handle from parts that agree.
    pub fn new(layout: &'a TagLayout, struct_data: &'a TagStructData, struct_raw: &'a [u8]) -> (r: Self)
        requires
            struct_handle_ok(*layout, *struct_data, struct_raw@),
        ensures
            r.spec_layout() == *layout,
            r.spec_data() == *struct_data,
            r.spec_raw() == struct_raw@,
    {
        TagStruct { layout, struct_data, struct_raw }
    }

    /// The struct definition this instance conforms to.
    pub fn definition(&self) -> (r: &'a TagStructLayout)
        ensures
            *r == self.spec_layout().struct_layouts@[self.spec_struct_index()],
    {
        proof {
            use_type_invariant(self);
        }
        &self.layout.struct_layouts[self.struct_data.struct_index as usize]
    }

    /// The struct type's name (e.g. `"biped"`), or `""`.
    pub fn name(&self) -> (r: &'a str)
        ensures
            r@ == match self.spec_layout().spec_get_string(
                self.spec_layout().struct_layouts@[self.spec_struct_index()].name_offset,
            ) {
                Some(n) => n,
                None => Seq::empty(),
            },
    {
        proof {
            use_type_invariant(self);
        }
        let definition = &self.layout.struct_layouts[self.struct_data.struct_index as usize];
        self.layout.string_or_empty(definition.name_offset)
    }

    /// Size in bytes of one instance of this struct.
    pub fn size(&self) -> (r: usize)
        ensures
            r == self.spec_layout().struct_layouts@[self.spec_struct_index()].size,
            r == self.spec_raw().len(),
    {
        proof {
            use_type_invariant(self);
        }
        self.layout.struct_layouts[self.struct_data.struct_index as usize].size
    }

    fn field_at(&self, field_index: usize) -> (r: TagField<'a>)
        requires
            self.spec_layout().field_of_struct(self.spec_struct_index(), field_index as int),
        ensures
            r.spec_layout() == self.spec_layout(),
            r.spec_data() == self.spec_data(),
            r.spec_raw() == self.spec_raw(),
            r.spec_field_index() == field_index,
    {
        proof {
            use_type_invariant(self);
        }
        TagField {
            layout: self.layout,
            struct_data: self.struct_data,
            struct_raw: self.struct_raw,
            field_index,
        }
    }

    /// The fields in declaration order, padding, explanations and
    /// unknown-typed fields left out.
    pub fn fields(&self) -> (r: Vec<TagField<'a>>)
        ensures
            r@.len() == self.spec_layout().visible_fields(self.spec_struct_index()).len(),
            forall|k: int|
                0 <= k < r@.len() ==> {
                    &&& (#[trigger] r@[k]).spec_field_index() == self.spec_layout().visible_fields(
                        self.spec_struct_index(),
                    )[k]
                    &&& r@[k].spec_data() == self.spec_data()
                    &&& r@[k].spec_raw() == self.spec_raw()
                    &&& r@[k].spec_layout() == self.spec_layout()
                },
    {
        self.collect_fields(false)
    }

    /// Every field, padding and explanations included.
    pub fn fields_all(&self) -> (r: Vec<TagField<'a>>)
        ensures
            r@.len() == self.spec_layout().struct_fields(self.spec_struct_index()).len(),
            forall|k: int|
                0 <= k < r@.len() ==> {
                    &&& (#[trigger] r@[k]).spec_field_index() == self.spec_layout().struct_fields(
                        self.spec_struct_index(),
                    )[k]
                    &&& r@[k].spec_data() == self.spec_data()
                    &&& r@[k].spec_raw() == self.spec_raw()
                    &&& r@[k].spec_layout() == self.spec_layout()
                },
    {
        self.collect_fields(true)
    }

    fn collect_fields(&self, all: bool) -> (r: Vec<TagField<'a>>)
        ensures
            ({
                let want = if all {
                    self.spec_layout().struct_fields(self.spec_struct_index())
                } else {
                    self.spec_layout().visible_fields(self.spec_struct_index())
                };
                &&& r@.len() == want.len()
                &&& forall|k: int|
                    0 <= k < r@.len() ==> {
                        &&& (#[trigger] r@[k]).spec_field_index() == want[k]
                        &&& r@[k].spec_data() == self.spec_data()
                        &&& r@[k].spec_raw() == self.spec_raw()
                        &&& r@[k].spec_layout() == self.spec_layout()
                    }
            }),
    {
        proof {
            use_type_invariant(self);
        }
        let layout = self.layout;
        let ghost s = self.spec_struct_index();
        let first = layout.struct_layouts[self.struct_data.struct_index as usize].first_field_index as usize;
        let ghost t = lemma_run_has_end(layout, s, first as int);
        let ghost want = if all {
            layout.run_from(first as int)
        } else {
            layout.visible_run_from(first as int)
        };
        let mut out: Vec<TagField<'a>> = Vec::new();
        let ghost mut done: Seq<int> = Seq::empty();
        let mut i = first;
        while layout.fields[i].field_type != TagFieldType::Terminator
            invariant
                layout == self.layout,
                struct_handle_ok(*layout, *self.struct_data, self.struct_raw@),
                s == self.spec_struct_index(),
                first == layout.first_field(s),
                first <= i <= t < layout.fields@.len(),
                layout.fields@[t].field_type == TagFieldType::Terminator,
                layout.no_terminator_between(first as int, i as int),
                want == done + if all {
                    layout.run_from(i as int)
                } else {
                    layout.visible_run_from(i as int)
                },
                out@.len() == done.len(),
                forall|k: int|
                    0 <= k < out@.len() ==> {
                        &&& (#[trigger] out@[k]).spec_field_index() == done[k]
                        &&& out@[k].spec_data() == self.spec_data()
                        &&& out@[k].spec_raw() == self.spec_raw()
                        &&& out@[k].spec_layout() == self.spec_layout()
                    },
            decreases t - i,
        {
            proof {
                assert(layout.field_of_struct(s, i as int));
            }
            if all || !layout.fields[i].field_type.is_hidden() {
                let f = self.field_at(i);
                out.push(f);
                proof {
                    done = done.push(i as int);
                    assert(want == done + if all {
                        layout.run_from(i + 1)
                    } else {
                        layout.visible_run_from(i + 1)
                    });
                }
            }
            i = i + 1;
        }
        proof {
            assert(done + Seq::<int>::empty() =~= done);
        }
        out
    }

    /// Non-empty names of the user-addressable fields, in declaration
    /// order.
    pub fn field_names(&self) -> (r: Vec<&'a str>)
        ensures
            r@.len() == self.spec_layout().names_from(self.spec_layout().first_field(self.spec_struct_index())).len(),
            forall|k: int|
                0 <= k < r@.len() ==> (#[trigger] r@[k])@ == self.spec_layout().names_from(
                    self.spec_layout().first_field(self.spec_struct_index()),
                )[k],
    {
        proof {
            use_type_invariant(self);
        }
        let layout = self.layout;
        let ghost s = self.spec_struct_index();
        let first = layout.struct_layouts[self.struct_data.struct_index as usize].first_field_index as usize;
        let ghost t = lemma_run_has_end(layout, s, first as int);
        let ghost want = layout.names_from(first as int);
        let mut out: Vec<&'a str> = Vec::new();
        let ghost mut done: Seq<Seq<char>> = Seq::empty();
        let mut i = first;
        while layout.fields[i].field_type != TagFieldType::Terminator
            invariant
                layout == self.layout,
                layout.wf(),
                0 <= s < layout.struct_layouts@.len(),
                first == layout.first_field(s),
                first <= i <= t < layout.fields@.len(),
                layout.fields@[t].field_type == TagFieldType::Terminator,
                layout.no_terminator_between(first as int, i as int),
                want == done + layout.names_from(i as int),
                out@.len() == done.len(),
                forall|k: int| 0 <= k < out@.len() ==> (#[trigger] out@[k])@ == done[k],
            decreases t - i,
        {
            if !layout.fields[i].field_type.is_hidden() {
                match layout.get_string(layout.fields[i].name_offset) {
                    Some(name) => {
                        if !name.is_empty() {
                            out.push(name);
                            proof {
                                done = done.push(name@);
                                assert(want == done + layout.names_from(i + 1));
                            }
                        }
                    },
                    None => {},
                }
            }
            i = i + 1;
        }
        proof {
            assert(done + Seq::<Seq<char>>::empty() =~= done);
        }
        out
    }

    /// The first field named `name` (case-sensitive, any field type), no
    /// path descent.
    pub fn field(&self, name: &str) -> (r: Option<TagField<'a>>)
        ensures
            r is Some <==> self.spec_layout().named_from(self.spec_layout().first_field(self.spec_struct_index()), name@)
                is Some,
            r matches Some(f) ==> {
                &&& Some(f.spec_field_index()) == self.spec_layout().named_from(
                    self.spec_layout().first_field(self.spec_struct_index()),
                    name@,
                )
                &&& f.spec_data() == self.spec_data()
                &&& f.spec_raw() == self.spec_raw()
                &&& f.spec_layout() == self.spec_layout()
            },
    {
        proof {
            use_type_invariant(self);
        }
        let layout = self.layout;
        let ghost s = self.spec_struct_index();
        let first = layout.struct_layouts[self.struct_data.struct_index as usize].first_field_index as usize;
        let ghost t = lemma_run_has_end(layout, s, first as int);
        let mut i = first;
        while layout.fields[i].field_type != TagFieldType::Terminator
            invariant
                layout == self.layout,
                struct_handle_ok(*layout, *self.struct_data, self.struct_raw@),
                s == self.spec_struct_index(),
                first == layout.first_field(s),
                first <= i <= t < layout.fields@.len(),
                layout.fields@[t].field_type == TagFieldType::Terminator,
                layout.no_terminator_between(first as int, i as int),
                layout.named_from(first as int, name@) == layout.named_from(i as int, name@),
            decreases t - i,
        {
            proof {
                assert(layout.field_of_struct(s, i as int));
            }
            if layout.string_is(layout.fields[i].name_offset, name) {
                return Some(self.field_at(i));
            }
            i = i + 1;
        }
        None
    }
}

/// How far a typed name is from a field name: the edit distance of
/// their lowercase forms.
pub open spec fn name_distance(typed: Seq<char>, name: Seq<char>) -> nat {
    crate::text::edit_distance_of(crate::text::lowercase(typed), crate::text::lowercase(name))
}

/// Index of the first of `names[..k]` closest to `typed`.
pub open spec fn closest_name(names: Seq<Seq<char>>, typed: Seq<char>, k: int) -> Option<int>
    decreases k,
{
    if k <= 0 {
        None
    } else {
        match closest_name(names, typed, k - 1) {
            None => Some(k - 1),
            Some(b) => if name_distance(typed, names[k - 1]) < name_distance(typed, names[b]) {
                Some(k - 1)
            } else {
                Some(b)
            },
        }
    }
}

impl<'a> TagStruct<'a> {
    /// The field name closest to `typed` (case-insensitive edit
    /// distance, earliest on ties), when it is within half the typed
    /// length plus one.
    pub fn suggest_field_name(&self, typed: &str) -> (r: Option<&'a str>)
        ensures
            ({
                let names = self.spec_layout().names_from(self.spec_layout().first_field(self.spec_struct_index()));
                match closest_name(names, typed@, names.len() as int) {
                    Some(b) => if name_distance(typed@, names[b]) <= typed.spec_bytes().len() / 2 + 1 {
                        r matches Some(s) && s@ == names[b]
                    } else {
                        r is None
                    },
                    None => r is None,
                }
            }),
    {
        let ghost names = self.spec_layout().names_from(self.spec_layout().first_field(self.spec_struct_index()));
        let typed_lower = crate::text::chars_of(crate::text::to_lowercase(typed).as_str());
        let candidates = self.field_names();
        let mut best: Option<(usize, usize)> = None;
        let mut k: usize = 0;
        while k < candidates.len()
            invariant
                k <= candidates@.len(),
                candidates@.len() == names.len(),
                forall|j: int| 0 <= j < candidates@.len() ==> (#[trigger] candidates@[j])@ == names[j],
                typed_lower@ == crate::text::lowercase(typed@),
                match best {
                    None => closest_name(names, typed@, k as int) is None,
                    Some((d, b)) => closest_name(names, typed@, k as int) == Some(b as int) && d == name_distance(
                        typed@,
                        names[b as int],
                    ) && b < k,
                },
            decreases candidates@.len() - k,
        {
            let cand = crate::text::chars_of(crate::text::to_lowercase(candidates[k]).as_str());
            let d = crate::text::edit_distance(&typed_lower, &cand);
            match best {
                Some((bd, _)) => {
                    if d < bd {
                        best = Some((d, k));
                    }
                },
                None => {
                    best = Some((d, k));
                },
            }
            k = k + 1;
        }
        match best {
            Some((d, b)) => {
                let limit = typed.as_bytes().len() / 2 + 1;
                assert(limit == typed.spec_bytes().len() / 2 + 1);
                if d <= limit {
                    let s = candidates[b];
                    assert(s@ == names[b as int]);
                    Some(s)
                } else {
                    None
                }
            },
            None => None,
        }
    }
}

/// A field of a struct instance.
#[derive(Clone, Copy)]
pub struct TagField<'a> {
    pub(crate) layout: &'a TagLayout,
    pub(crate) struct_data: &'a TagStructData,
    pub(crate) struct_raw: &'a [u8],
    pub(crate) field_index: usize,
}

impl<'a> TagField<'a> {
    #[verifier::type_invariant]
    spec fn inv(&self) -> bool {
        &&& struct_handle_ok(*self.layout, *self.struct_data, self.struct_raw@)
        &&& self.layout.field_of_struct(self.struct_data.struct_index as int, self.field_index as int)
    }

    /// The layout.
    pub closed spec fn spec_layout(&self) -> TagLayout {
        *self.layout
    }

    /// The owning struct's tree.
    pub closed spec fn spec_data(&self) -> TagStructData {
        *self.struct_data
    }

    /// The owning struct's bytes.
    pub closed spec fn spec_raw(&self) -> Seq<u8> {
        self.struct_raw@
    }

    /// Index of the field in the layout's field table.
    pub closed spec fn spec_field_index(&self) -> int {
        self.field_index as int
    }

    /// The field's layout entry.
    pub open spec fn spec_field(&self) -> TagFieldLayout {
        self.spec_layout().fields@[self.spec_field_index()]
    }

    /// Build a handle on field `field_index` of a struct instance.
    pub fn new(layout: &'a TagLayout, struct_data: &'a TagStructData, struct_raw: &'a [u8], field_index: usize) -> (r: Self)
        requires
            struct_handle_ok(*layout, *struct_data, struct_raw@),
            layout.field_of_struct(struct_data.struct_index as int, field_index as int),
        ensures
            r.spec_layout() == *layout,
            r.spec_data() == *struct_data,
            r.spec_raw() == struct_raw@,
            r.spec_field_index() == field_index,
    {
        TagField { layout, struct_data, struct_raw, field_index }
    }

    /// Index of the field in the layout's field table; the field belongs
    /// to the owning struct.
    pub fn index(&self) -> (r: usize)
        ensures
            r == self.spec_field_index(),
            self.spec_layout().field_of_struct(self.spec_data().struct_index as int, r as int),
    {
        proof {
            use_type_invariant(self);
        }
        self.field_index
    }

    /// The field's definition in the layout.
    pub fn definition(&self) -> (r: &'a TagFieldLayout)
        ensures
            *r == self.spec_field(),
    {
        proof {
            use_type_invariant(self);
        }
        &self.layout.fields[self.field_index]
    }

    /// The field's name, or `""`.
    pub fn name(&self) -> (r: &'a str)
        ensures
            r@ == match self.spec_layout().spec_get_string(self.spec_field().name_offset) {
                Some(n) => n,
                None => Seq::empty(),
            },
    {
        proof {
            use_type_invariant(self);
        }
        self.layout.string_or_empty(self.layout.fields[self.field_index].name_offset)
    }

    /// The schema type's name (e.g. `"short integer"`), or `""`.
    pub fn field_type_name(&self) -> (r: &'a str)
        ensures
            r@ == match self.spec_layout().spec_get_string(
                self.spec_layout().field_types@[self.spec_field().type_index as int].name_offset,
            ) {
                Some(n) => n,
                None => Seq::empty(),
            },
    {
        proof {
            use_type_invariant(self);
            assert(self.layout.field_refs_valid(self.field_index as int));
        }
        let field = &self.layout.fields[self.field_index];
        let type_name_offset = self.layout.field_types[field.type_index as usize].name_offset;
        self.layout.string_or_empty(type_name_offset)
    }

    /// The field's schema type.
    pub fn field_type(&self) -> (r: TagFieldType)
        ensures
            r == self.spec_field().field_type,
    {
        proof {
            use_type_invariant(self);
        }
        self.layout.fields[self.field_index].field_type
    }

    /// The sub-chunk owned by this field, if any.
    fn sub_chunk(&self) -> (r: Option<&'a TagSubChunkContent>)
        ensures
            r is Some <==> entry_of(self.spec_data().sub_chunks@, self.spec_field_index()) is Some,
            r matches Some(c) ==> entry_of(self.spec_data().sub_chunks@, self.spec_field_index()) matches Some(j)
                && *c == self.spec_data().sub_chunks@[j].content,
    {
        proof {
            use_type_invariant(self);
        }
        match find_entry(&self.struct_data.sub_chunks, self.field_index) {
            Some(j) => Some(&self.struct_data.sub_chunks[j].content),
            None => None,
        }
    }

    /// Step into a struct field. `None` when the field is not a struct
    /// or its sub-chunk is missing.
    pub fn as_struct(&self) -> (r: Option<TagStruct<'a>>)
        ensures
            r is Some <==> self.spec_field().field_type == TagFieldType::Struct
                && (entry_of(self.spec_data().sub_chunks@, self.spec_field_index()) matches Some(j)
                && self.spec_data().sub_chunks@[j].content is Struct),
            r matches Some(st) ==> entry_of(self.spec_data().sub_chunks@, self.spec_field_index()) matches Some(j)
                && self.spec_data().sub_chunks@[j].content == TagSubChunkContent::Struct(st.spec_data())
                && st.spec_raw() == self.spec_raw().subrange(
                    self.spec_field().offset as int,
                    self.spec_field().offset + st.spec_layout().struct_layouts@[st.spec_struct_index()].size,
                ) && st.spec_layout() == self.spec_layout(),
    {
        proof {
            use_type_invariant(self);
        }
        let field = &self.layout.fields[self.field_index];
        if field.field_type != TagFieldType::Struct {
            return None;
        }
        match find_entry(&self.struct_data.sub_chunks, self.field_index) {
            Some(j) => {
                match &self.struct_data.sub_chunks[j].content {
                    TagSubChunkContent::Struct(nested) => {
                        proof {
                            assert(entry_ok(*self.layout, self.struct_data.struct_index as int, self.struct_data.sub_chunks@[j as int]));
                            assert(self.layout.field_of_struct(self.struct_data.struct_index as int, self.field_index as int));
                        }
                        let nested_size = self.layout.struct_layouts[nested.struct_index as usize].size;
                        let offset = field.offset as usize;
                        let raw = vstd::slice::slice_subrange(self.struct_raw, offset, offset + nested_size);
                        Some(TagStruct { layout: self.layout, struct_data: nested, struct_raw: raw })
                    },
                    _ => None,
                }
            },
            None => None,
        }
    }

    /// Step into a block field. `None` when the field is not a block or
    /// its sub-chunk is missing.
    pub fn as_block(&self) -> (r: Option<TagBlock<'a>>)
        ensures
            r is Some <==> self.spec_field().field_type == TagFieldType::Block
                && (entry_of(self.spec_data().sub_chunks@, self.spec_field_index()) matches Some(j)
                && self.spec_data().sub_chunks@[j].content is Block),
            r matches Some(b) ==> entry_of(self.spec_data().sub_chunks@, self.spec_field_index()) matches Some(j)
                && self.spec_data().sub_chunks@[j].content == TagSubChunkContent::Block(b.spec_data())
                && b.spec_layout() == self.spec_layout(),
    {
        proof {
            use_type_invariant(self);
        }
        if self.layout.fields[self.field_index].field_type != TagFieldType::Block {
            return None;
        }
        match find_entry(&self.struct_data.sub_chunks, self.field_index) {
            Some(j) => {
                match &self.struct_data.sub_chunks[j].content {
                    TagSubChunkContent::Block(block_data) => {
                        proof {
                            assert(entry_ok(*self.layout, self.struct_data.struct_index as int, self.struct_data.sub_chunks@[j as int]));
                        }
                        Some(TagBlock { layout: self.layout, block_data })
                    },
                    _ => None,
                }
            },
            None => None,
        }
    }

    /// Step into an inline array field. `None` when the field is not an
    /// array or its sub-chunk is missing.
    pub fn as_array(&self) -> (r: Option<TagArray<'a>>)
        ensures
            r is Some <==> self.spec_field().field_type == TagFieldType::Array
                && (entry_of(self.spec_data().sub_chunks@, self.spec_field_index()) matches Some(j)
                && self.spec_data().sub_chunks@[j].content is Array),
            r matches Some(a) ==> entry_of(self.spec_data().sub_chunks@, self.spec_field_index()) matches Some(j)
                && self.spec_data().sub_chunks@[j].content == TagSubChunkContent::Array(a.spec_elements_vec())
                && a.spec_array_index() == self.spec_field().definition
                && a.spec_raw() == self.spec_raw().subrange(
                    self.spec_field().offset as int,
                    self.spec_field().offset + a.spec_elements().len() * self.spec_layout().array_element_size(
                        a.spec_array_index() as int,
                    ),
                ) && a.spec_layout() == self.spec_layout(),
    {
        proof {
            use_type_invariant(self);
        }
        let field = &self.layout.fields[self.field_index];
        if field.field_type != TagFieldType::Array {
            return None;
        }
        match find_entry(&self.struct_data.sub_chunks, self.field_index) {
            Some(j) => {
                match &self.struct_data.sub_chunks[j].content {
                    TagSubChunkContent::Array(elements) => {
                        proof {
                            assert(entry_ok(*self.layout, self.struct_data.struct_index as int, self.struct_data.sub_chunks@[j as int]));
                            assert(self.layout.field_of_struct(self.struct_data.struct_index as int, self.field_index as int));
                        }
                        let array_layout_index = field.definition;
                        let array_def = &self.layout.array_layouts[array_layout_index as usize];
                        let element_size = self.layout.struct_layouts[array_def.struct_index as usize].size;
                        let start = field.offset as usize;
                        proof {
                            assert(elements@.len() * element_size == self.layout.field_extent(self.field_index as int))
                                by (nonlinear_arith)
                                requires
                                    elements@.len() == array_def.count,
                                    self.layout.field_extent(self.field_index as int) == element_size * (array_def.count as int),
                            ;
                        }
                        let array_raw = vstd::slice::slice_subrange(
                            self.struct_raw,
                            start,
                            start + elements.len() * element_size,
                        );
                        Some(TagArray { layout: self.layout, array_layout_index, array_raw, elements })
                    },
                    _ => None,
                }
            },
            None => None,
        }
    }

    /// Step into a pageable-resource field. `None` when the field is not
    /// a resource or its sub-chunk is missing.
    pub fn as_resource(&self) -> (r: Option<TagResource<'a>>)
        ensures
            r is Some <==> self.spec_field().field_type == TagFieldType::PageableResource
                && (entry_of(self.spec_data().sub_chunks@, self.spec_field_index()) matches Some(j)
                && self.spec_data().sub_chunks@[j].content is Resource),
            r matches Some(res) ==> entry_of(self.spec_data().sub_chunks@, self.spec_field_index()) matches Some(j)
                && self.spec_data().sub_chunks@[j].content == TagSubChunkContent::Resource(res.spec_chunk())
                && res.spec_layout() == self.spec_layout(),
    {
        proof {
            use_type_invariant(self);
        }
        if self.layout.fields[self.field_index].field_type != TagFieldType::PageableResource {
            return None;
        }
        match find_entry(&self.struct_data.sub_chunks, self.field_index) {
            Some(j) => match &self.struct_data.sub_chunks[j].content {
                TagSubChunkContent::Resource(chunk) => {
                    proof {
                        assert(entry_ok(*self.layout, self.struct_data.struct_index as int, self.struct_data.sub_chunks@[j as int]));
                    }
                    Some(TagResource { layout: self.layout, chunk })
                },
                _ => None,
            },
            None => None,
        }
    }
}

/// A block: a variable-count list of struct elements with its own byte
/// buffer.
#[derive(Clone, Copy)]
pub struct TagBlock<'a> {
    pub(crate) layout: &'a TagLayout,
    pub(crate) block_data: &'a TagBlockData,
}

impl<'a> TagBlock<'a> {
    #[verifier::type_invariant]
    spec fn inv(&self) -> bool {
        self.layout.wf() && block_ok(*self.layout, *self.block_data)
    }

    /// The layout.
    pub closed spec fn spec_layout(&self) -> TagLayout {
        *self.layout
    }

    /// The block's data.
    pub closed spec fn spec_data(&self) -> TagBlockData {
        *self.block_data
    }

    /// Build a handle on a block that agrees with the layout.
    pub fn new(layout: &'a TagLayout, block_data: &'a TagBlockData) -> (r: Self)
        requires
            layout.wf(),
            block_ok(*layout, *block_data),
        ensures
            r.spec_layout() == *layout,
            r.spec_data() == *block_data,
    {
        TagBlock { layout, block_data }
    }

    /// The block definition.
    pub fn definition(&self) -> (r: &'a TagBlockLayout)
        ensures
            *r == self.spec_layout().block_layouts@[self.spec_data().block_index as int],
    {
        proof {
            use_type_invariant(self);
        }
        &self.layout.block_layouts[self.block_data.block_index as usize]
    }

    /// Number of elements.
    pub fn len(&self) -> (r: usize)
        ensures
            r == self.spec_data().elements@.len(),
    {
        self.block_data.elements.len()
    }

    /// Whether the block has no elements.
    pub fn is_empty(&self) -> (r: bool)
        ensures
            r == (self.spec_data().elements@.len() == 0),
    {
        self.block_data.elements.len() == 0
    }

    /// Element `index`, or `None` past the end.
    pub fn element(&self, index: usize) -> (r: Option<TagStruct<'a>>)
        ensures
            r is Some <==> index < self.spec_data().elements@.len(),
            r matches Some(st) ==> st.spec_data() == self.spec_data().elements@[index as int] && st.spec_raw()
                == record(
                self.spec_data().raw_data@,
                block_element_size(self.spec_layout(), self.spec_data().block_index as int),
                index as int,
            ) && st.spec_layout() == self.spec_layout(),
    {
        proof {
            use_type_invariant(self);
        }
        if index >= self.block_data.elements.len() {
            return None;
        }
        let struct_raw = self.block_data.element_raw(self.layout, index);
        proof {
            let size = block_element_size(*self.layout, self.block_data.block_index as int);
            crate::data::lemma_record_bounds(size, index as int, self.block_data.elements@.len() as int);
            assert(self.block_data.elements@[index as int].struct_index == block_struct(*self.layout, self.block_data.block_index as int));
        }
        Some(TagStruct { layout: self.layout, struct_data: &self.block_data.elements[index], struct_raw })
    }

    /// Every element, in order.
    pub fn iter(&self) -> (r: Vec<TagStruct<'a>>)
        ensures
            r@.len() == self.spec_data().elements@.len(),
            forall|k: int|
                0 <= k < r@.len() ==> (#[trigger] r@[k]).spec_data() == self.spec_data().elements@[k]
                    && r@[k].spec_raw() == record(
                    self.spec_data().raw_data@,
                    block_element_size(self.spec_layout(), self.spec_data().block_index as int),
                    k,
                ) && r@[k].spec_layout() == self.spec_layout(),
    {
        let mut out: Vec<TagStruct<'a>> = Vec::new();
        let mut k: usize = 0;
        while k < self.block_data.elements.len()
            invariant
                k <= self.spec_data().elements@.len(),
                out@.len() == k,
                forall|j: int|
                    0 <= j < k ==> (#[trigger] out@[j]).spec_data() == self.spec_data().elements@[j]
                        && out@[j].spec_raw() == record(
                        self.spec_data().raw_data@,
                        block_element_size(self.spec_layout(), self.spec_data().block_index as int),
                        j,
                    ) && out@[j].spec_layout() == self.spec_layout(),
            decreases self.spec_data().elements@.len() - k,
        {
            match self.element(k) {
                Some(e) => out.push(e),
                None => {},
            }
            k = k + 1;
        }
        out
    }
}

/// An inline fixed-count array; its elements' bytes lie back to back in
/// the enclosing struct.
#[derive(Clone, Copy)]
pub struct TagArray<'a> {
    pub(crate) layout: &'a TagLayout,
    pub(crate) array_layout_index: u32,
    pub(crate) array_raw: &'a [u8],
    pub(crate) elements: &'a Vec<TagStructData>,
}

impl<'a> TagArray<'a> {
    #[verifier::type_invariant]
    spec fn inv(&self) -> bool {
        &&& self.layout.wf()
        &&& self.array_layout_index < self.layout.array_layouts@.len()
        &&& self.array_raw@.len() == self.elements@.len() * self.layout.array_element_size(self.array_layout_index as int)
        &&& forall|k: int|
            0 <= k < self.elements@.len() ==> {
                &&& (#[trigger] self.elements@[k]).struct_index
                    == self.layout.array_layouts@[self.array_layout_index as int].struct_index
                &&& struct_ok(*self.layout, self.elements@[k])
            }
    }

    /// The layout.
    pub closed spec fn spec_layout(&self) -> TagLayout {
        *self.layout
    }

    /// Index of the array definition.
    pub closed spec fn spec_array_index(&self) -> u32 {
        self.array_layout_index
    }

    /// The elements' bytes.
    pub closed spec fn spec_raw(&self) -> Seq<u8> {
        self.array_raw@
    }

    /// The element trees.
    pub open spec fn spec_elements(&self) -> Seq<TagStructData> {
        self.spec_elements_vec()@
    }

    /// The element vector.
    pub closed spec fn spec_elements_vec(&self) -> Vec<TagStructData> {
        *self.elements
    }

    /// The array definition.
    pub fn definition(&self) -> (r: &'a TagArrayLayout)
        ensures
            *r == self.spec_layout().array_layouts@[self.spec_array_index() as int],
    {
        proof {
            use_type_invariant(self);
        }
        &self.layout.array_layouts[self.array_layout_index as usize]
    }

    /// Number of elements.
    pub fn len(&self) -> (r: usize)
        ensures
            r == self.spec_elements().len(),
    {
        self.elements.len()
    }

    /// Whether the array has no elements.
    pub fn is_empty(&self) -> (r: bool)
        ensures
            r == (self.spec_elements().len() == 0),
    {
        self.elements.len() == 0
    }

    /// Element `index`, or `None` past the end.
    pub fn element(&self, index: usize) -> (r: Option<TagStruct<'a>>)
        ensures
            r is Some <==> index < self.spec_elements().len(),
            r matches Some(st) ==> st.spec_data() == self.spec_elements()[index as int] && st.spec_raw() == record(
                self.spec_raw(),
                self.spec_layout().array_element_size(self.spec_array_index() as int),
                index as int,
            ) && st.spec_layout() == self.spec_layout(),
    {
        proof {
            use_type_invariant(self);
        }
        if index >= self.elements.len() {
            return None;
        }
        let size = self.layout.struct_layouts[self.layout.array_layouts[self.array_layout_index as usize].struct_index as usize].size;
        let total = self.array_raw.len();
        proof {
            assert((index + 1) * size <= self.elements@.len() * size) by (nonlinear_arith)
                requires
                    index < self.elements@.len(),
            ;
            assert(index * size + size == (index + 1) * size) by (nonlinear_arith);
        }
        let start = index * size;
        let struct_raw = vstd::slice::slice_subrange(self.array_raw, start, start + size);
        Some(TagStruct { layout: self.layout, struct_data: &self.elements[index], struct_raw })
    }

    /// Every element, in order.
    pub fn iter(&self) -> (r: Vec<TagStruct<'a>>)
        ensures
            r@.len() == self.spec_elements().len(),
            forall|k: int|
                0 <= k < r@.len() ==> (#[trigger] r@[k]).spec_data() == self.spec_elements()[k] && r@[k].spec_raw()
                    == record(
                    self.spec_raw(),
                    self.spec_layout().array_element_size(self.spec_array_index() as int),
                    k,
                ) && r@[k].spec_layout() == self.spec_layout(),
    {
        let mut out: Vec<TagStruct<'a>> = Vec::new();
        let mut k: usize = 0;
        while k < self.elements.len()
            invariant
                k <= self.spec_elements().len(),
                out@.len() == k,
                forall|j: int|
                    0 <= j < k ==> (#[trigger] out@[j]).spec_data() == self.spec_elements()[j] && out@[j].spec_raw()
                        == record(
                        self.spec_raw(),
                        self.spec_layout().array_element_size(self.spec_array_index() as int),
                        j,
                    ) && out@[j].spec_layout() == self.spec_layout(),
            decreases self.spec_elements().len() - k,
        {
            match self.element(k) {
                Some(e) => out.push(e),
                None => {},
            }
            k = k + 1;
        }
        out
    }
}

/// Read-only view of a pageable resource: its shape only.
#[derive(Clone, Copy)]
pub struct TagResource<'a> {
    layout: &'a TagLayout,
    chunk: &'a TagResourceChunk,
}

/// Shape of a pageable resource.
#[derive(Debug, Clone, Copy, PartialEq, Eq, Structural)]
pub enum TagResourceKind {
    Null,
    Exploded,
    Xsync,
}

impl<'a> TagResource<'a> {
    #[verifier::type_invariant]
    spec fn inv(&self) -> bool {
        &&& self.layout.wf()
        &&& match *self.chunk {
            TagResourceChunk::Exploded { struct_data, .. } => struct_ok(*self.layout, struct_data),
            _ => true,
        }
    }

    /// The layout.
    pub closed spec fn spec_layout(&self) -> TagLayout {
        *self.layout
    }

    /// The resource payload.
    pub closed spec fn spec_chunk(&self) -> TagResourceChunk {
        *self.chunk
    }

    /// The resource's own struct, read from its exploded payload. `None`
    /// for null and xsync resources, and when the payload is not exactly
    /// one instance of the struct long.
    pub fn as_struct(&self) -> (r: Option<TagStruct<'a>>)
        ensures
            r is Some <==> (self.spec_chunk() matches TagResourceChunk::Exploded { exploded, struct_data }
                && exploded@.len() == self.spec_layout().struct_layouts@[struct_data.struct_index as int].size),
            r matches Some(st) ==> self.spec_chunk() matches TagResourceChunk::Exploded { exploded, struct_data }
                && st.spec_data() == struct_data && st.spec_raw() == exploded@ && st.spec_layout()
                == self.spec_layout(),
    {
        proof {
            use_type_invariant(self);
        }
        match self.chunk {
            TagResourceChunk::Exploded { exploded, struct_data } => {
                if exploded.len() == self.layout.struct_layouts[struct_data.struct_index as usize].size {
                    Some(TagStruct { layout: self.layout, struct_data, struct_raw: exploded.as_slice() })
                } else {
                    None
                }
            },
            _ => None,
        }
    }

    /// The resource's shape.
    pub fn kind(&self) -> (r: TagResourceKind)
        ensures
            r == match self.spec_chunk() {
                TagResourceChunk::Null => TagResourceKind::Null,
                TagResourceChunk::Exploded { .. } => TagResourceKind::Exploded,
                TagResourceChunk::Xsync(_) => TagResourceKind::Xsync,
            },
    {
        match self.chunk {
            TagResourceChunk::Null => TagResourceKind::Null,
            TagResourceChunk::Exploded { .. } => TagResourceKind::Exploded,
            TagResourceChunk::Xsync(_) => TagResourceKind::Xsync,
        }
    }
}

//================================================================================
// Enum and flag values
//================================================================================

/// The value of an enum field of type `t` stored at `off`, sign-extended.
pub open spec fn enum_value_of(t: TagFieldType, raw: Seq<u8>, off: int) -> Option<i64> {
    match t {
        TagFieldType::CharEnum => Some((raw[off] as i8) as i64),
        TagFieldType::ShortEnum => Some((le_u16(raw, off) as i16) as i64),
        TagFieldType::LongEnum => Some((le_u32(raw, off) as i32) as i64),
        _ => None,
    }
}

/// The bits of a flags or block-flags field of type `t` stored at `off`,
/// zero-extended.
pub open spec fn flags_value_of(t: TagFieldType, raw: Seq<u8>, off: int) -> Option<u64> {
    match t {
        TagFieldType::ByteFlags | TagFieldType::ByteBlockFlags => Some(raw[off] as u64),
        TagFieldType::WordFlags | TagFieldType::WordBlockFlags => Some(le_u16(raw, off) as u64),
        TagFieldType::LongFlags | TagFieldType::LongBlockFlags => Some(le_u32(raw, off) as u64),
        _ => None,
    }
}

/// Bit `bit` of `v`; bits past 63 read as clear.
pub open spec fn bit_of(v: u64, bit: u32) -> bool {
    bit < 64 && (v >> bit) & 1u64 == 1u64
}

/// Whether flag bit `bit` is set in field `fi` of a struct's bytes
/// (`false` for a field that is not flags-shaped).
pub open spec fn flag_is_set(layout: TagLayout, raw: Seq<u8>, fi: int, bit: u32) -> bool {
    let f = layout.fields@[fi];
    match flags_value_of(f.field_type, raw, f.offset as int) {
        Some(v) => bit_of(v, bit),
        None => false,
    }
}

/// Name of flag bit `bit` of field `fi`, or `""`.
pub open spec fn flag_name_of(layout: TagLayout, fi: int, bit: u32) -> Seq<char> {
    if bit < layout.option_names(fi).len() {
        layout.option_names(fi)[bit as int]
    } else {
        Seq::empty()
    }
}

fn test_bit(v: u64, bit: u32) -> (r: bool)
    ensures
        r == bit_of(v, bit),
{
    if bit >= 64 {
        false
    } else {
        (v >> bit) & 1 == 1
    }
}

/// Read a flags-shaped value of type `t` at `off`.
fn read_flags_value(raw: &[u8], off: usize, t: TagFieldType) -> (r: Option<u64>)
    requires
        off + TagLayout::value_width(t) <= raw@.len(),
    ensures
        r == flags_value_of(t, raw@, off as int),
{
    match t {
        TagFieldType::ByteFlags | TagFieldType::ByteBlockFlags => Some(raw[off] as u64),
        TagFieldType::WordFlags | TagFieldType::WordBlockFlags => Some(read_u16_le(raw, off) as u64),
        TagFieldType::LongFlags | TagFieldType::LongBlockFlags => Some(read_u32_le(raw, off) as u64),
        _ => None,
    }
}

/// Read an enum value of type `t` at `off`.
fn read_enum_value(raw: &[u8], off: usize, t: TagFieldType) -> (r: Option<i64>)
    requires
        off + TagLayout::value_width(t) <= raw@.len(),
    ensures
        r == enum_value_of(t, raw@, off as int),
{
    match t {
        TagFieldType::CharEnum => Some((raw[off] as i8) as i64),
        TagFieldType::ShortEnum => Some((read_u16_le(raw, off) as i16) as i64),
        TagFieldType::LongEnum => Some((read_u32_le(raw, off) as i32) as i64),
        _ => None,
    }
}

/// Enum or flags option set of a field.
pub enum TagOptions<'a> {
    /// Variant names and the current value.
    Enum { names: Vec<&'a str>, current: Option<i64> },
    /// One entry per named bit.
    Flags(Vec<TagFlagOption<'a>>),
}

/// One named flag bit and its state.
#[derive(Debug, Clone, Copy)]
pub struct TagFlagOption<'a> {
    pub name: &'a str,
    pub bit: u32,
    pub is_set: bool,
}

/// A single flag bit of a field, addressed by name.
pub struct TagFlag<'a> {
    pub(crate) field: TagField<'a>,
    pub(crate) bit: u32,
}

impl<'a> TagField<'a> {
    /// For enum and flags fields: the option names with the current value
    /// (enums) or the state of each named bit (flags). `None` for other
    /// field types.
    pub fn options(&self) -> (r: Option<TagOptions<'a>>)
        ensures
            r is None <==> !self.spec_field().field_type.spec_is_enum() && !self.spec_field().field_type.spec_is_flags(),
            r matches Some(TagOptions::Enum { names, current }) ==> {
                &&& self.spec_field().field_type.spec_is_enum()
                &&& names@.len() == self.spec_layout().option_names(self.spec_field_index()).len()
                &&& forall|k: int|
                    0 <= k < names@.len() ==> (#[trigger] names@[k])@ == self.spec_layout().option_names(
                        self.spec_field_index(),
                    )[k]
                &&& current == enum_value_of(self.spec_field().field_type, self.spec_raw(), self.spec_field().offset as int)
            },
            r matches Some(TagOptions::Flags(items)) ==> {
                &&& self.spec_field().field_type.spec_is_flags()
                &&& items@.len() == self.spec_layout().option_names(self.spec_field_index()).len()
                &&& forall|k: int|
                    0 <= k < items@.len() ==> {
                        &&& (#[trigger] items@[k]).name@ == self.spec_layout().option_names(self.spec_field_index())[k]
                        &&& items@[k].bit == k
                        &&& items@[k].is_set == flag_is_set(self.spec_layout(), self.spec_raw(), self.spec_field_index(), k as u32)
                    }
            },
    {
        proof {
            use_type_invariant(self);
            assert(self.layout.field_of_struct(self.struct_data.struct_index as int, self.field_index as int));
        }
        let field = &self.layout.fields[self.field_index];
        let ft = field.field_type;
        let is_enum = match ft {
            TagFieldType::CharEnum | TagFieldType::ShortEnum | TagFieldType::LongEnum => true,
            _ => false,
        };
        let is_flags = match ft {
            TagFieldType::ByteFlags | TagFieldType::WordFlags | TagFieldType::LongFlags => true,
            _ => false,
        };
        if !is_enum && !is_flags {
            return None;
        }
        let names = self.layout.field_option_names(self.field_index);
        let off = field.offset as usize;
        if is_enum {
            let current = read_enum_value(self.struct_raw, off, ft);
            Some(TagOptions::Enum { names, current })
        } else {
            let value = read_flags_value(self.struct_raw, off, ft);
            let mut items: Vec<TagFlagOption<'a>> = Vec::new();
            let mut k: usize = 0;
            while k < names.len()
                invariant
                    k <= names@.len(),
                    names@.len() <= u32::MAX + 1,
                    items@.len() == k,
                    value == flags_value_of(ft, self.struct_raw@, off as int),
                    forall|j: int|
                        0 <= j < k ==> {
                            &&& (#[trigger] items@[j]).name == names@[j]
                            &&& items@[j].bit == j
                            &&& items@[j].is_set == match value {
                                Some(v) => bit_of(v, j as u32),
                                None => false,
                            }
                        },
                decreases names@.len() - k,
            {
                let bit = k as u32;
                let is_set = match value {
                    Some(v) => test_bit(v, bit),
                    None => false,
                };
                items.push(TagFlagOption { name: names[k], bit, is_set });
                k = k + 1;
            }
            Some(TagOptions::Flags(items))
        }
    }

    /// The flag bit named `name` (case-sensitive) of this field's option
    /// list.
    pub fn flag(&self, name: &str) -> (r: Option<TagFlag<'a>>)
        ensures
            r is Some <==> self.spec_layout().flag_named_from(self.spec_field_index(), 0, name@) is Some,
            r matches Some(f) ==> Some(f.spec_bit()) == self.spec_layout().flag_named_from(self.spec_field_index(), 0, name@)
                && f.spec_field() == *self,
    {
        proof {
            use_type_invariant(self);
        }
        match self.layout.find_flag_bit(self.field_index, name) {
            Some(bit) => Some(TagFlag { field: *self, bit }),
            None => None,
        }
    }

    /// Name of flag bit `bit` of this field's option list, or `""`.
    pub fn flag_name(&self, bit: u32) -> (r: &'a str)
        ensures
            r@ == flag_name_of(self.spec_layout(), self.spec_field_index(), bit),
    {
        self.flag_from_bit(bit)
    }

    /// Whether flag bit `bit` of this field is set.
    pub fn flag_set(&self, bit: u32) -> (r: bool)
        ensures
            r == flag_is_set(self.spec_layout(), self.spec_raw(), self.spec_field_index(), bit),
    {
        self.flag_state(bit)
    }

    /// Name of flag bit `bit`, or `""`.
    fn flag_from_bit(&self, bit: u32) -> (r: &'a str)
        ensures
            r@ == flag_name_of(self.spec_layout(), self.spec_field_index(), bit),
    {
        proof {
            use_type_invariant(self);
        }
        let field = &self.layout.fields[self.field_index];
        let d = field.definition as usize;
        if d >= self.layout.string_lists.len() || bit >= self.layout.string_lists[d].count {
            proof {
                reveal_strlit("");
            }
            return "";
        }
        proof {
            assert(self.layout.option_names(self.field_index as int)[bit as int] == self.layout.list_name(d as int, bit as int));
        }
        self.layout.list_name_at(d, bit)
    }

    /// Whether flag bit `bit` is set (`false` for a field that is not
    /// flags-shaped).
    fn flag_state(&self, bit: u32) -> (r: bool)
        ensures
            r == flag_is_set(self.spec_layout(), self.spec_raw(), self.spec_field_index(), bit),
    {
        proof {
            use_type_invariant(self);
            assert(self.layout.field_of_struct(self.struct_data.struct_index as int, self.field_index as int));
        }
        let field = &self.layout.fields[self.field_index];
        match read_flags_value(self.struct_raw, field.offset as usize, field.field_type) {
            Some(v) => test_bit(v, bit),
            None => false,
        }
    }
}

impl<'a> TagFlag<'a> {
    /// The field the flag belongs to.
    pub closed spec fn spec_field(&self) -> TagField<'a> {
        self.field
    }

    /// The flag's bit index.
    pub closed spec fn spec_bit(&self) -> u32 {
        self.bit
    }

    /// The flag's option name.
    pub fn name(&self) -> (r: &'a str)
        ensures
            r@ == flag_name_of(self.spec_field().spec_layout(), self.spec_field().spec_field_index(), self.spec_bit()),
    {
        self.field.flag_from_bit(self.bit)
    }

    /// The flag's bit index.
    pub fn bit(&self) -> (r: u32)
        ensures
            r == self.spec_bit(),
    {
        self.bit
    }

    /// Whether the flag is set.
    pub fn is_set(&self) -> (r: bool)
        ensures
            r == flag_is_set(
                self.spec_field().spec_layout(),
                self.spec_field().spec_raw(),
                self.spec_field().spec_field_index(),
                self.spec_bit(),
            ),
    {
        self.field.flag_state(self.bit)
    }
}

//================================================================================
// Errors
//================================================================================

/// Why a field could not be written.
#[derive(Debug)]
pub enum TagSetError {
    /// The supplied value's type doesn't match the field's schema type.
    TypeMismatch { expected: String, got: String },
    /// Text could not be parsed for this field (human-readable message).
    ParseError(String),
    /// The field is a container; edit it through its own handle.
    NotAssignable,
}

/// An element index outside a block or array.
#[derive(Debug, PartialEq, Eq, Structural)]
pub enum TagIndexError {
    OutOfRange { index: usize, len: usize },
}

//================================================================================
// Typed field readers
//================================================================================

/// The value of an integer field of type `t` stored at `off`,
/// sign-extended.
pub open spec fn int_value_of(t: TagFieldType, raw: Seq<u8>, off: int) -> Option<i64> {
    match t {
        TagFieldType::CharInteger => Some((raw[off] as i8) as i64),
        TagFieldType::ShortInteger => Some((le_u16(raw, off) as i16) as i64),
        TagFieldType::LongInteger => Some((le_u32(raw, off) as i32) as i64),
        TagFieldType::Int64Integer => Some(le_u64(raw, off) as i64),
        _ => None,
    }
}

/// The value of a block-index field of type `t` stored at `off`, as
/// `i16` (long indices truncated); `-1` for other field types.
pub open spec fn block_index_of(t: TagFieldType, raw: Seq<u8>, off: int) -> i16 {
    match t {
        TagFieldType::CharBlockIndex => (raw[off] as i8) as i16,
        TagFieldType::ShortBlockIndex => le_u16(raw, off) as i16,
        TagFieldType::LongBlockIndex => (le_u32(raw, off) as i32) as i16,
        _ => -1i16,
    }
}

/// The option name of value `v` of enum field `fi`: `None` when `v` is
/// outside the string list or the string is missing.
pub open spec fn enum_name_of(layout: TagLayout, fi: int, v: i64) -> Option<Seq<char>> {
    let d = layout.fields@[fi].definition as int;
    if d >= layout.string_lists@.len() || v < 0 || v >= layout.string_lists@[d].count {
        None
    } else {
        let idx = layout.string_lists@[d].first + v;
        if idx < layout.string_offsets@.len() {
            layout.spec_get_string(layout.string_offsets@[idx])
        } else {
            None
        }
    }
}

/// The text of the string-id payload of field `fi`, if the field is a
/// (old) string id with a payload of the matching kind.
/// The text of a `tgsi` payload: its characters when it is valid UTF-8,
/// else the lossy decoding.
pub open spec fn payload_text(p: Seq<u8>) -> Seq<char> {
    if valid_utf8(p) {
        decode_utf8(p)
    } else {
        utf8_lossy(p)
    }
}

pub open spec fn string_id_of(layout: TagLayout, d: TagStructData, fi: int) -> Option<Seq<char>> {
    match entry_of(d.sub_chunks@, fi) {
        Some(j) => match (layout.fields@[fi].field_type, d.sub_chunks@[j].content) {
            (TagFieldType::StringId, TagSubChunkContent::StringId(p)) => Some(payload_text(p@)),
            (TagFieldType::OldStringId, TagSubChunkContent::OldStringId(p)) => Some(payload_text(p@)),
            _ => None,
        },
        None => None,
    }
}

/// Read an integer field of type `t` at `off`.
fn read_int_value(raw: &[u8], off: usize, t: TagFieldType) -> (r: Option<i64>)
    requires
        off + TagLayout::value_width(t) <= raw@.len(),
    ensures
        r == int_value_of(t, raw@, off as int),
{
    match t {
        TagFieldType::CharInteger => Some((raw[off] as i8) as i64),
        TagFieldType::ShortInteger => Some((read_u16_le(raw, off) as i16) as i64),
        TagFieldType::LongInteger => Some((read_u32_le(raw, off) as i32) as i64),
        TagFieldType::Int64Integer => Some(read_u64_le(raw, off) as i64),
        _ => None,
    }
}

impl<'a> TagField<'a> {
    /// The field's integer value (char, short, long or int64 integer).
    pub fn int_value(&self) -> (r: Option<i64>)
        ensures
            r == int_value_of(self.spec_field().field_type, self.spec_raw(), self.spec_field().offset as int),
    {
        proof {
            use_type_invariant(self);
            assert(self.layout.field_of_struct(self.struct_data.struct_index as int, self.field_index as int));
        }
        let field = &self.layout.fields[self.field_index];
        read_int_value(self.struct_raw, field.offset as usize, field.field_type)
    }

    /// The field's block-index value (`-1` for other field types).
    pub fn block_index_value(&self) -> (r: i16)
        ensures
            r == block_index_of(self.spec_field().field_type, self.spec_raw(), self.spec_field().offset as int),
    {
        proof {
            use_type_invariant(self);
            assert(self.layout.field_of_struct(self.struct_data.struct_index as int, self.field_index as int));
        }
        let field = &self.layout.fields[self.field_index];
        let off = field.offset as usize;
        match field.field_type {
            TagFieldType::CharBlockIndex => (self.struct_raw[off] as i8) as i16,
            TagFieldType::ShortBlockIndex => read_u16_le(self.struct_raw, off) as i16,
            TagFieldType::LongBlockIndex => (read_u32_le(self.struct_raw, off) as i32) as i16,
            _ => -1,
        }
    }

    /// The option name of the enum field's current value.
    pub fn enum_name(&self) -> (r: Option<String>)
        ensures
            r matches Some(n) ==> enum_value_of(self.spec_field().field_type, self.spec_raw(), self.spec_field().offset as int)
                matches Some(v) && enum_name_of(self.spec_layout(), self.spec_field_index(), v) == Some(n@),
            r is None ==> (enum_value_of(self.spec_field().field_type, self.spec_raw(), self.spec_field().offset as int)
                matches Some(v) ==> enum_name_of(self.spec_layout(), self.spec_field_index(), v) is None),
    {
        proof {
            use_type_invariant(self);
            assert(self.layout.field_of_struct(self.struct_data.struct_index as int, self.field_index as int));
        }
        let layout = self.layout;
        let field = &layout.fields[self.field_index];
        let v = match read_enum_value(self.struct_raw, field.offset as usize, field.field_type) {
            Some(v) => v,
            None => {
                return None;
            },
        };
        let d = field.definition as usize;
        if d >= layout.string_lists.len() {
            return None;
        }
        let sl = layout.string_lists[d];
        if v < 0 || v >= sl.count as i64 {
            return None;
        }
        let idx = (sl.first as u64 + v as u64) as usize;
        if idx >= layout.string_offsets.len() {
            return None;
        }
        match layout.get_string(layout.string_offsets[idx]) {
            Some(name) => Some(name.to_owned()),
            None => None,
        }
    }

    /// The text of a string-id (or old string-id) field; `None` for
    /// other field types or when its payload is missing.
    pub fn string_id(&self) -> (r: Option<String>)
        ensures
            r matches Some(s) ==> string_id_of(self.spec_layout(), self.spec_data(), self.spec_field_index()) == Some(s@),
            r is None ==> string_id_of(self.spec_layout(), self.spec_data(), self.spec_field_index()) is None,
    {
        proof {
            use_type_invariant(self);
        }
        let t = self.layout.fields[self.field_index].field_type;
        match self.sub_chunk() {
            Some(TagSubChunkContent::StringId(p)) => match t {
                TagFieldType::StringId => Some(crate::fields::StringIdData::from_bytes(p.as_slice()).string),
                _ => None,
            },
            Some(TagSubChunkContent::OldStringId(p)) => match t {
                TagFieldType::OldStringId => Some(crate::fields::StringIdData::from_bytes(p.as_slice()).string),
                _ => None,
            },
            _ => None,
        }
    }

    /// The payload of a data field; `None` for other field types or
    /// when its payload is missing.
    pub fn as_data(&self) -> (r: Option<&'a [u8]>)
        ensures
            r is Some <==> self.spec_field().field_type == TagFieldType::Data && (entry_of(
                self.spec_data().sub_chunks@,
                self.spec_field_index(),
            ) matches Some(j) && self.spec_data().sub_chunks@[j].content is Data),
            r matches Some(b) ==> entry_of(self.spec_data().sub_chunks@, self.spec_field_index()) matches Some(j)
                && self.spec_data().sub_chunks@[j].content matches TagSubChunkContent::Data(p) && b@ == p@,
    {
        proof {
            use_type_invariant(self);
        }
        if self.layout.fields[self.field_index].field_type != TagFieldType::Data {
            return None;
        }
        match self.sub_chunk() {
            Some(TagSubChunkContent::Data(p)) => Some(p.as_slice()),
            _ => None,
        }
    }
}

/// The text of an optional string.
pub open spec fn opt_text(o: Option<String>) -> Option<Seq<char>> {
    match o {
        Some(s) => Some(s@),
        None => None,
    }
}

/// The first field of struct `d` named `name`.
pub open spec fn field_named(layout: TagLayout, d: TagStructData, name: Seq<char>) -> Option<int> {
    layout.named_from(layout.first_field(d.struct_index as int), name)
}

/// What [`TagStruct::read_int_any`] reads from the instance `(d, raw)`.
pub open spec fn read_int_spec(layout: TagLayout, d: TagStructData, raw: Seq<u8>, name: Seq<char>) -> Option<i64> {
    match field_named(layout, d, name) {
        Some(fi) => int_value_of(layout.fields@[fi].field_type, raw, layout.fields@[fi].offset as int),
        None => None,
    }
}

/// What [`TagStruct::read_block_index`] reads from the instance `(d, raw)`.
pub open spec fn read_block_index_spec(layout: TagLayout, d: TagStructData, raw: Seq<u8>, name: Seq<char>) -> i16 {
    match field_named(layout, d, name) {
        Some(fi) => block_index_of(layout.fields@[fi].field_type, raw, layout.fields@[fi].offset as int),
        None => -1i16,
    }
}

/// What [`TagStruct::read_enum_name`] reads from the instance `(d, raw)`.
pub open spec fn read_enum_name_spec(layout: TagLayout, d: TagStructData, raw: Seq<u8>, name: Seq<char>) -> Option<
    Seq<char>,
> {
    match field_named(layout, d, name) {
        Some(fi) => match enum_value_of(layout.fields@[fi].field_type, raw, layout.fields@[fi].offset as int) {
            Some(v) => enum_name_of(layout, fi, v),
            None => None,
        },
        None => None,
    }
}

/// What [`TagStruct::read_string_id`] reads from struct `d`.
pub open spec fn read_string_id_spec(layout: TagLayout, d: TagStructData, name: Seq<char>) -> Option<Seq<char>> {
    match field_named(layout, d, name) {
        Some(fi) => match string_id_of(layout, d, fi) {
            Some(s) => if s.len() > 0 {
                Some(s)
            } else {
                None
            },
            None => None,
        },
        None => None,
    }
}

/// The block held by field `fi` of struct `d`, if it is a block field
/// with a block payload.
pub open spec fn block_at(layout: TagLayout, d: TagStructData, fi: int) -> Option<TagBlockData> {
    if layout.fields@[fi].field_type == TagFieldType::Block {
        match entry_of(d.sub_chunks@, fi) {
            Some(j) => match d.sub_chunks@[j].content {
                TagSubChunkContent::Block(b) => Some(b),
                _ => None,
            },
            None => None,
        }
    } else {
        None
    }
}

/// The nested instance held by struct field `fi` of the instance
/// `(d, raw)`.
pub open spec fn struct_at(layout: TagLayout, d: TagStructData, raw: Seq<u8>, fi: int) -> Option<
    (TagStructData, Seq<u8>),
> {
    if layout.fields@[fi].field_type == TagFieldType::Struct {
        match entry_of(d.sub_chunks@, fi) {
            Some(j) => match d.sub_chunks@[j].content {
                TagSubChunkContent::Struct(n) => Some(
                    (
                        n,
                        raw.subrange(
                            layout.fields@[fi].offset as int,
                            layout.fields@[fi].offset + layout.struct_layouts@[n.struct_index as int].size,
                        ),
                    ),
                ),
                _ => None,
            },
            None => None,
        }
    } else {
        None
    }
}

/// The payload of data field `fi` of struct `d`.
pub open spec fn data_at(layout: TagLayout, d: TagStructData, fi: int) -> Option<Seq<u8>> {
    if layout.fields@[fi].field_type == TagFieldType::Data {
        match entry_of(d.sub_chunks@, fi) {
            Some(j) => match d.sub_chunks@[j].content {
                TagSubChunkContent::Data(p) => Some(p@),
                _ => None,
            },
            None => None,
        }
    } else {
        None
    }
}

/// Element `k` of block `b` as an instance.
pub open spec fn element_at(layout: TagLayout, b: TagBlockData, k: int) -> (TagStructData, Seq<u8>) {
    (b.elements@[k], record(b.raw_data@, block_element_size(layout, b.block_index as int), k))
}

impl<'a> TagField<'a> {
    /// The `tgrf` payload of a tag-reference field; `None` for other
    /// field types or when its payload is missing.
    pub(crate) fn reference_payload(&self) -> (r: Option<&'a [u8]>)
        ensures
            r matches Some(b) ==> reference_at(self.spec_layout(), self.spec_data(), self.spec_field_index())
                == Some(b@),
            r is None ==> reference_at(self.spec_layout(), self.spec_data(), self.spec_field_index()) is None,
    {
        proof {
            use_type_invariant(self);
        }
        if self.layout.fields[self.field_index].field_type != TagFieldType::TagReference {
            return None;
        }
        match self.sub_chunk() {
            Some(TagSubChunkContent::TagReference(p)) => Some(p.as_slice()),
            _ => None,
        }
    }
}

/// The payload of tag-reference field `fi` of struct `d`.
pub open spec fn reference_at(layout: TagLayout, d: TagStructData, fi: int) -> Option<Seq<u8>> {
    if layout.fields@[fi].field_type == TagFieldType::TagReference {
        match entry_of(d.sub_chunks@, fi) {
            Some(j) => match d.sub_chunks@[j].content {
                TagSubChunkContent::TagReference(p) => Some(p@),
                _ => None,
            },
            None => None,
        }
    } else {
        None
    }
}

impl<'a> TagStruct<'a> {
    /// Integer value of the field named `name` (char / short / long /
    /// int64 integer); `None` when there is no such field or it is not an
    /// integer.
    pub fn read_int_any(&self, name: &str) -> (r: Option<i64>)
        ensures
            r == read_int_spec(self.spec_layout(), self.spec_data(), self.spec_raw(), name@),
            r == match self.spec_layout().named_from(self.spec_layout().first_field(self.spec_struct_index()), name@) {
                Some(fi) => int_value_of(
                    self.spec_layout().fields@[fi].field_type,
                    self.spec_raw(),
                    self.spec_layout().fields@[fi].offset as int,
                ),
                None => None,
            },
    {
        match self.field(name) {
            Some(f) => f.int_value(),
            None => None,
        }
    }

    /// Block-index value of the field named `name` as `i16`; `-1` when
    /// there is no such field or it is not a char / short / long block
    /// index.
    pub fn read_block_index(&self, name: &str) -> (r: i16)
        ensures
            r == read_block_index_spec(self.spec_layout(), self.spec_data(), self.spec_raw(), name@),
            r == match self.spec_layout().named_from(self.spec_layout().first_field(self.spec_struct_index()), name@) {
                Some(fi) => block_index_of(
                    self.spec_layout().fields@[fi].field_type,
                    self.spec_raw(),
                    self.spec_layout().fields@[fi].offset as int,
                ),
                None => -1i16,
            },
    {
        match self.field(name) {
            Some(f) => f.block_index_value(),
            None => -1,
        }
    }

    /// Option name of the enum field named `name`.
    pub fn read_enum_name(&self, name: &str) -> (r: Option<String>)
        ensures
            opt_text(r) == read_enum_name_spec(self.spec_layout(), self.spec_data(), self.spec_raw(), name@),
            r matches Some(n) ==> self.spec_layout().named_from(
                self.spec_layout().first_field(self.spec_struct_index()),
                name@,
            ) matches Some(fi) && enum_value_of(
                self.spec_layout().fields@[fi].field_type,
                self.spec_raw(),
                self.spec_layout().fields@[fi].offset as int,
            ) matches Some(v) && enum_name_of(self.spec_layout(), fi, v) == Some(n@),
            r is None ==> (self.spec_layout().named_from(self.spec_layout().first_field(self.spec_struct_index()), name@)
                matches Some(fi) ==> (enum_value_of(
                self.spec_layout().fields@[fi].field_type,
                self.spec_raw(),
                self.spec_layout().fields@[fi].offset as int,
            ) matches Some(v) ==> enum_name_of(self.spec_layout(), fi, v) is None)),
    {
        match self.field(name) {
            Some(f) => f.enum_name(),
            None => None,
        }
    }

    /// Non-empty text of the string-id field named `name`.
    pub fn read_string_id(&self, name: &str) -> (r: Option<String>)
        ensures
            opt_text(r) == read_string_id_spec(self.spec_layout(), self.spec_data(), name@),
            r matches Some(s) ==> s@.len() > 0 && (self.spec_layout().named_from(
                self.spec_layout().first_field(self.spec_struct_index()),
                name@,
            ) matches Some(fi) && string_id_of(self.spec_layout(), self.spec_data(), fi) == Some(s@)),
            r is None ==> (self.spec_layout().named_from(self.spec_layout().first_field(self.spec_struct_index()), name@)
                matches Some(fi) ==> (string_id_of(self.spec_layout(), self.spec_data(), fi) matches Some(s) ==> s.len()
                == 0)),
    {
        match self.field(name) {
            Some(f) => match f.string_id() {
                Some(s) => if s.as_str().is_empty() {
                    None
                } else {
                    Some(s)
                },
                None => None,
            },
            None => None,
        }
    }
}

impl<'a> TagStruct<'a> {
    /// The first field whose name's UTF-8 bytes are `name`.
    pub fn field_bytes(&self, name: &[u8]) -> (r: Option<TagField<'a>>)
        ensures
            r is Some <==> self.spec_layout().named_bytes_from(self.spec_layout().first_field(self.spec_struct_index()), name@)
                is Some,
            r matches Some(f) ==> {
                &&& Some(f.spec_field_index()) == self.spec_layout().named_bytes_from(
                    self.spec_layout().first_field(self.spec_struct_index()),
                    name@,
                )
                &&& f.spec_data() == self.spec_data()
                &&& f.spec_raw() == self.spec_raw()
                &&& f.spec_layout() == self.spec_layout()
            },
    {
        proof {
            use_type_invariant(self);
        }
        let layout = self.layout;
        let ghost s = self.spec_struct_index();
        let first = layout.struct_layouts[self.struct_data.struct_index as usize].first_field_index as usize;
        let ghost t = lemma_run_has_end(layout, s, first as int);
        let mut i = first;
        while layout.fields[i].field_type != TagFieldType::Terminator
            invariant
                layout == self.layout,
                struct_handle_ok(*layout, *self.struct_data, self.struct_raw@),
                s == self.spec_struct_index(),
                first == layout.first_field(s),
                first <= i <= t < layout.fields@.len(),
                layout.fields@[t].field_type == TagFieldType::Terminator,
                layout.no_terminator_between(first as int, i as int),
                layout.named_bytes_from(first as int, name@) == layout.named_bytes_from(i as int, name@),
            decreases t - i,
        {
            proof {
                assert(layout.field_of_struct(s, i as int));
            }
            if layout.string_bytes_is(layout.fields[i].name_offset, name) {
                return Some(self.field_at(i));
            }
            i = i + 1;
        }
        None
    }

    /// The struct reached by stepping through every `/`-separated
    /// segment of `path` (`name`, or `name[N]` for element `N` of a
    /// block or array field).
    pub fn descend(&self, path: &str) -> (r: Option<TagStruct<'a>>)
        ensures
            r matches Some(t) ==> crate::path::walk(
                self.spec_layout(),
                self.spec_data(),
                self.spec_raw(),
                crate::path::path_segments(path.spec_bytes()),
            ) == Some((t.spec_data(), t.spec_raw())) && t.spec_layout() == self.spec_layout(),
            r is None ==> crate::path::walk(
                self.spec_layout(),
                self.spec_data(),
                self.spec_raw(),
                crate::path::path_segments(path.spec_bytes()),
            ) is None,
    {
        crate::path::descend_from_struct(*self, path)
    }

    /// The field named by the last segment of `path`, in the struct
    /// reached by stepping through the others (see [`Self::descend`]).
    pub fn field_path(&self, path: &str) -> (r: Option<TagField<'a>>)
        ensures
            r matches Some(f) ==> crate::path::lookup(
                self.spec_layout(),
                self.spec_data(),
                self.spec_raw(),
                crate::path::path_segments(path.spec_bytes()),
            ) == Some((f.spec_data(), f.spec_raw(), f.spec_field_index())) && f.spec_layout() == self.spec_layout(),
            r is None ==> crate::path::lookup(
                self.spec_layout(),
                self.spec_data(),
                self.spec_raw(),
                crate::path::path_segments(path.spec_bytes()),
            ) is None,
    {
        crate::path::lookup_from_struct(*self, path)
    }
}

//================================================================================
// Integer-shaped values
//================================================================================

/// The value of an integer-shaped field of type `t` stored at `off`:
/// integers, block indices (plain and custom) and enums sign-extended,
/// byte and word flags zero-extended, long flags sign-extended from their
/// 32 bits; `None` for any other field type.
pub open spec fn int_like_value_of(t: TagFieldType, raw: Seq<u8>, off: int) -> Option<i64> {
    match t {
        TagFieldType::CharInteger | TagFieldType::CharBlockIndex | TagFieldType::CustomCharBlockIndex
        | TagFieldType::CharEnum => Some((raw[off] as i8) as i64),
        TagFieldType::ShortInteger | TagFieldType::ShortBlockIndex | TagFieldType::CustomShortBlockIndex
        | TagFieldType::ShortEnum => Some((le_u16(raw, off) as i16) as i64),
        TagFieldType::LongInteger | TagFieldType::LongBlockIndex | TagFieldType::CustomLongBlockIndex
        | TagFieldType::LongEnum | TagFieldType::LongFlags => Some((le_u32(raw, off) as i32) as i64),
        TagFieldType::Int64Integer => Some(le_u64(raw, off) as i64),
        TagFieldType::ByteFlags => Some(raw[off] as i64),
        TagFieldType::WordFlags => Some(le_u16(raw, off) as i64),
        _ => None,
    }
}

/// Read an integer-shaped value of type `t` at `off`.
fn read_int_like_value(raw: &[u8], off: usize, t: TagFieldType) -> (r: Option<i64>)
    requires
        off + TagLayout::value_width(t) <= raw@.len(),
    ensures
        r == int_like_value_of(t, raw@, off as int),
{
    match t {
        TagFieldType::CharInteger | TagFieldType::CharBlockIndex | TagFieldType::CustomCharBlockIndex
        | TagFieldType::CharEnum => Some((raw[off] as i8) as i64),
        TagFieldType::ShortInteger | TagFieldType::ShortBlockIndex | TagFieldType::CustomShortBlockIndex
        | TagFieldType::ShortEnum => Some((read_u16_le(raw, off) as i16) as i64),
        TagFieldType::LongInteger | TagFieldType::LongBlockIndex | TagFieldType::CustomLongBlockIndex
        | TagFieldType::LongEnum | TagFieldType::LongFlags => Some((read_u32_le(raw, off) as i32) as i64),
        TagFieldType::Int64Integer => Some(read_u64_le(raw, off) as i64),
        TagFieldType::ByteFlags => Some(raw[off] as i64),
        TagFieldType::WordFlags => Some(read_u16_le(raw, off) as i64),
        _ => None,
    }
}

impl<'a> TagField<'a> {
    /// The field's value when it is integer-shaped (see
    /// [`int_like_value_of`]).
    pub(crate) fn int_like_value(&self) -> (r: Option<i64>)
        ensures
            r == int_like_value_of(self.spec_field().field_type, self.spec_raw(), self.spec_field().offset as int),
    {
        proof {
            use_type_invariant(self);
            assert(self.layout.field_of_struct(self.struct_data.struct_index as int, self.field_index as int));
        }
        let field = &self.layout.fields[self.field_index];
        read_int_like_value(self.struct_raw, field.offset as usize, field.field_type)
    }
}

/// The bits of the `f32` a floating-point field of type `t` (angle,
/// real, real slider or real fraction) stores little-endian at `off`;
/// `None` for any other field type.
pub open spec fn real_bits_of(t: TagFieldType, raw: Seq<u8>, off: int) -> Option<u32> {
    if crate::assign::is_real_field(t) {
        Some(le_u32(raw, off))
    } else {
        None
    }
}

impl<'a> TagField<'a> {
    /// The bits of the field's `f32` when it is a floating-point field
    /// (see [`real_bits_of`]); the caller turns them into a number.
    pub fn real_bits(&self) -> (r: Option<u32>)
        ensures
            r == real_bits_of(self.spec_field().field_type, self.spec_raw(), self.spec_field().offset as int),
    {
        proof {
            use_type_invariant(self);
            assert(self.layout.field_of_struct(self.struct_data.struct_index as int, self.field_index as int));
        }
        let field = &self.layout.fields[self.field_index];
        match field.field_type {
            TagFieldType::Angle | TagFieldType::Real | TagFieldType::RealSlider | TagFieldType::RealFraction => {
                Some(read_u32_le(self.struct_raw, field.offset as usize))
            },
            _ => None,
        }
    }
}

//================================================================================
// Text, group-tag, point, rectangle and colour fields
//================================================================================

/// The bytes of a fixed-size string field up to its first NUL.
pub open spec fn until_nul(b: Seq<u8>) -> Seq<u8>
    decreases b.len(),
{
    if b.len() == 0 {
        b
    } else if b[0] == 0 {
        Seq::empty()
    } else {
        seq![b[0]] + until_nul(b.skip(1))
    }
}

/// The bytes of a string field of type `t` at `off`: 32 for a string,
/// 256 for a long string; `None` for other field types.
pub open spec fn string_bytes_of(t: TagFieldType, raw: Seq<u8>, off: int) -> Option<Seq<u8>> {
    match t {
        TagFieldType::String => Some(raw.subrange(off, off + 32)),
        TagFieldType::LongString => Some(raw.subrange(off, off + 256)),
        _ => None,
    }
}

fn nul_prefix(b: &[u8]) -> (r: usize)
    ensures
        r <= b@.len(),
        b@.subrange(0, r as int) == until_nul(b@),
{
    let mut i: usize = 0;
    assert(b@.skip(0) =~= b@);
    assert(b@.subrange(0, 0) + until_nul(b@.skip(0)) =~= until_nul(b@));
    while i < b.len() && b[i] != 0
        invariant
            i <= b@.len(),
            until_nul(b@) == b@.subrange(0, i as int) + until_nul(b@.skip(i as int)),
        decreases b@.len() - i,
    {
        proof {
            let rest = b@.skip(i as int);
            assert(rest.skip(1) =~= b@.skip(i + 1));
            assert(b@.subrange(0, i as int) + seq![rest[0]] =~= b@.subrange(0, i + 1));
        }
        i = i + 1;
    }
    proof {
        if i == b@.len() {
            assert(b@.skip(i as int) =~= Seq::<u8>::empty());
        }
        assert(b@.subrange(0, i as int) + Seq::<u8>::empty() =~= b@.subrange(0, i as int));
    }
    i
}

impl<'a> TagField<'a> {
    /// The text of a string or long-string field: its bytes up to the
    /// first NUL, invalid UTF-8 replaced; `None` for other field types.
    pub fn string_value(&self) -> (r: Option<String>)
        ensures
            match string_bytes_of(self.spec_field().field_type, self.spec_raw(), self.spec_field().offset as int) {
                Some(b) => r matches Some(s) && s@ == utf8_lossy(until_nul(b)),
                None => r is None,
            },
    {
        proof {
            use_type_invariant(self);
            assert(self.layout.field_of_struct(self.struct_data.struct_index as int, self.field_index as int));
        }
        let field = &self.layout.fields[self.field_index];
        let off = field.offset as usize;
        let width: usize = match field.field_type {
            TagFieldType::String => 32,
            TagFieldType::LongString => 256,
            _ => {
                return None;
            },
        };
        let bytes = vstd::slice::slice_subrange(self.struct_raw, off, off + width);
        let n = nul_prefix(bytes);
        let kept = vstd::slice::slice_subrange(bytes, 0, n);
        Some(crate::fields::string_from_utf8_lossy(kept))
    }

    /// The packed group tag of a `tag` field; `None` for other field
    /// types.
    pub fn tag_value(&self) -> (r: Option<u32>)
        ensures
            self.spec_field().field_type == TagFieldType::Tag ==> r == Some(
                le_u32(self.spec_raw(), self.spec_field().offset as int),
            ),
            self.spec_field().field_type != TagFieldType::Tag ==> r is None,
    {
        proof {
            use_type_invariant(self);
            assert(self.layout.field_of_struct(self.struct_data.struct_index as int, self.field_index as int));
        }
        let field = &self.layout.fields[self.field_index];
        if field.field_type != TagFieldType::Tag {
            return None;
        }
        Some(read_u32_le(self.struct_raw, field.offset as usize))
    }

    /// The `(x, y)` of a point2d field; `None` for other field types.
    pub fn point2d_value(&self) -> (r: Option<(i16, i16)>)
        ensures
            self.spec_field().field_type == TagFieldType::Point2d ==> r == Some(
                (
                    le_u16(self.spec_raw(), self.spec_field().offset as int) as i16,
                    le_u16(self.spec_raw(), self.spec_field().offset + 2) as i16,
                ),
            ),
            self.spec_field().field_type != TagFieldType::Point2d ==> r is None,
    {
        proof {
            use_type_invariant(self);
            assert(self.layout.field_of_struct(self.struct_data.struct_index as int, self.field_index as int));
        }
        let field = &self.layout.fields[self.field_index];
        if field.field_type != TagFieldType::Point2d {
            return None;
        }
        let off = field.offset as usize;
        Some((read_u16_le(self.struct_raw, off) as i16, read_u16_le(self.struct_raw, off + 2) as i16))
    }

    /// The `(top, left, bottom, right)` of a rectangle2d field; `None` for
    /// other field types.
    pub fn rectangle2d_value(&self) -> (r: Option<(i16, i16, i16, i16)>)
        ensures
            self.spec_field().field_type == TagFieldType::Rectangle2d ==> r == Some(
                (
                    le_u16(self.spec_raw(), self.spec_field().offset as int) as i16,
                    le_u16(self.spec_raw(), self.spec_field().offset + 2) as i16,
                    le_u16(self.spec_raw(), self.spec_field().offset + 4) as i16,
                    le_u16(self.spec_raw(), self.spec_field().offset + 6) as i16,
                ),
            ),
            self.spec_field().field_type != TagFieldType::Rectangle2d ==> r is None,
    {
        proof {
            use_type_invariant(self);
            assert(self.layout.field_of_struct(self.struct_data.struct_index as int, self.field_index as int));
        }
        let field = &self.layout.fields[self.field_index];
        if field.field_type != TagFieldType::Rectangle2d {
            return None;
        }
        let off = field.offset as usize;
        Some(
            (
                read_u16_le(self.struct_raw, off) as i16,
                read_u16_le(self.struct_raw, off + 2) as i16,
                read_u16_le(self.struct_raw, off + 4) as i16,
                read_u16_le(self.struct_raw, off + 6) as i16,
            ),
        )
    }

    /// The packed colour word of an rgb or argb colour field; `None` for
    /// other field types.
    pub fn color_value(&self) -> (r: Option<u32>)
        ensures
            (self.spec_field().field_type == TagFieldType::RgbColor || self.spec_field().field_type
                == TagFieldType::ArgbColor) ==> r == Some(le_u32(self.spec_raw(), self.spec_field().offset as int)),
            !(self.spec_field().field_type == TagFieldType::RgbColor || self.spec_field().field_type
                == TagFieldType::ArgbColor) ==> r is None,
    {
        proof {
            use_type_invariant(self);
            assert(self.layout.field_of_struct(self.struct_data.struct_index as int, self.field_index as int));
        }
        let field = &self.layout.fields[self.field_index];
        match field.field_type {
            TagFieldType::RgbColor | TagFieldType::ArgbColor => Some(read_u32_le(self.struct_raw, field.offset as usize)),
            _ => None,
        }
    }
}

} // verus!
