//! Write-side handles over a tag's data tree: the mutable counterparts of
//! the read handles in [`crate::api`].
//!
//! A mutable struct handle borrows the struct tree and the byte buffer of
//! the block that holds the struct's bytes, with the offset of those
//! bytes in it; nested structs and array elements share that buffer at
//! larger offsets, while a nested block brings a buffer of its own.
//! Every handle method states how the values behind its borrows change,
//! and that the borrows still lead back to the same places.
use vstd::prelude::*;
use vstd::string::StringSliceAdditionalSpecFns;

use crate::api::{
    bit_of, flag_is_set, flag_name_of, flags_value_of, struct_handle_ok, TagArray, TagBlock, TagField, TagIndexError,
    TagStruct,
};
use crate::bytes::{le_u16, le_u32, read_u16_le, read_u32_le};
use crate::data::{
    block_element_size, block_ok, block_struct, entry_of, entry_ok, find_entry, lemma_record_bounds, record, struct_ok,
    TagBlockData, TagStructData, TagSubChunkContent,
};
use crate::fields::TagFieldType;
use crate::layout::{lemma_run_has_end, TagArrayLayout, TagBlockLayout, TagLayout};

verus! {

//================================================================================
// Blocks
//================================================================================

/// Mutable handle on a block. All structural edits of a block go through
/// it.
pub struct TagBlockMut<'a> {
    pub layout: &'a TagLayout,
    pub block_data: &'a mut TagBlockData,
}

impl<'a> TagBlockMut<'a> {
    /// The handle's layout and block agree.
    pub open spec fn inv(&self) -> bool {
        self.layout.wf() && block_ok(*self.layout, *self.block_data)
    }

    /// The block behind the handle.
    pub open spec fn spec_block(&self) -> TagBlockData {
        *self.block_data
    }

    /// Element records of the block.
    pub open spec fn spec_records(&self) -> Seq<Seq<u8>> {
        self.block_data.spec_records(*self.layout)
    }

    /// Wrap a block.
    pub fn new(layout: &'a TagLayout, block_data: &'a mut TagBlockData) -> (r: Self)
        ensures
            r.layout == layout,
            *r.block_data == *old(block_data),
            *final(block_data) == *final(r.block_data),
    {
        TagBlockMut { layout, block_data }
    }

    /// Read-only view of the block.
    pub fn as_ref(&self) -> (r: TagBlock<'_>)
        requires
            self.inv(),
        ensures
            r.spec_layout() == *self.layout,
            r.spec_data() == self.spec_block(),
    {
        TagBlock::new(self.layout, &*self.block_data)
    }

    /// The block definition.
    pub fn definition(&self) -> (r: &TagBlockLayout)
        requires
            self.inv(),
        ensures
            *r == self.layout.block_layouts@[self.spec_block().block_index as int],
    {
        &self.layout.block_layouts[self.block_data.block_index as usize]
    }

    /// Number of elements.
    pub fn len(&self) -> (r: usize)
        ensures
            r == self.spec_block().elements@.len(),
    {
        self.block_data.elements.len()
    }

    /// Whether the block has no elements.
    pub fn is_empty(&self) -> (r: bool)
        ensures
            r == (self.spec_block().elements@.len() == 0),
    {
        self.block_data.elements.len() == 0
    }

    /// Mutable handle on element `index`, or `None` past the end.
    pub fn element_mut(&mut self, index: usize) -> (r: Option<TagStructMut<'_>>)
        requires
            old(self).inv(),
        ensures
            r is Some <==> index < old(self).block_data.elements@.len(),
            r matches Some(m) ==> {
                &&& m.inv()
                &&& m.layout == old(self).layout
                &&& *m.struct_data == old(self).block_data.elements@[index as int]
                &&& *m.block_raw == old(self).block_data.raw_data
                &&& m.raw_start == index * block_element_size(*old(self).layout, old(self).block_data.block_index as int)
                &&& (*final(self).block_data).elements@ == old(self).block_data.elements@.update(
                    index as int,
                    *final(m.struct_data),
                )
                &&& (*final(self).block_data).raw_data == *final(m.block_raw)
                &&& (*final(self).block_data).block_index == old(self).block_data.block_index
                &&& (*final(self).block_data).flags == old(self).block_data.flags
            },
            r is None ==> *final(self).block_data == *old(self).block_data,
            final(self).layout == old(self).layout,
            *final(final(self).block_data) == *final(old(self).block_data),
    {
        if index >= self.block_data.elements.len() {
            return None;
        }
        let size = self.block_data.element_size(self.layout);
        let total = self.block_data.raw_data.len();
        proof {
            lemma_record_bounds(size as int, index as int, self.block_data.elements@.len() as int);
            assert(self.block_data.elements@[index as int].struct_index == block_struct(*self.layout, self.block_data.block_index as int));
        }
        let layout = self.layout;
        let block: &mut TagBlockData = &mut *self.block_data;
        let struct_data = &mut block.elements[index];
        let block_raw = &mut block.raw_data;
        Some(TagStructMut { layout, struct_data, block_raw, raw_start: index * size })
    }

    /// Append a default-initialized element; returns its index.
    pub fn add(&mut self) -> (r: usize)
        requires
            old(self).inv(),
            old(self).block_data.raw_data@.len() + block_element_size(*old(self).layout, old(self).block_data.block_index as int)
                <= usize::MAX,
        ensures
            final(self).inv(),
            r == old(self).block_data.elements@.len(),
            (*final(self).block_data).elements@.len() == old(self).block_data.elements@.len() + 1,
            (*final(self).block_data).elements@.drop_last() == old(self).block_data.elements@,
            crate::data::default_struct_of(
                *old(self).layout,
                block_struct(*old(self).layout, old(self).block_data.block_index as int),
                old(self).layout.struct_layouts@.len() as nat,
                (*final(self).block_data).elements@.last(),
            ),
            final(self).spec_records() == old(self).spec_records().push(
                crate::data::zeros(block_element_size(*old(self).layout, old(self).block_data.block_index as int) as nat),
            ),
            final(self).layout == old(self).layout,
            *final(final(self).block_data) == *final(old(self).block_data),
    {
        self.block_data.add_element(self.layout)
    }

    /// Insert a default element at `index`; valid positions are
    /// `0..=len`, anything else is `OutOfRange`.
    pub fn insert(&mut self, index: usize) -> (r: Result<(), TagIndexError>)
        requires
            old(self).inv(),
            old(self).block_data.raw_data@.len() + block_element_size(*old(self).layout, old(self).block_data.block_index as int)
                <= usize::MAX,
        ensures
            final(self).inv(),
            index > old(self).block_data.elements@.len() <==> r is Err,
            r matches Err(e) ==> e == (TagIndexError::OutOfRange { index, len: old(self).block_data.elements@.len() as usize })
                && *final(self).block_data == *old(self).block_data,
            r is Ok ==> crate::data::default_struct_of(
                *old(self).layout,
                block_struct(*old(self).layout, old(self).block_data.block_index as int),
                old(self).layout.struct_layouts@.len() as nat,
                (*final(self).block_data).elements@[index as int],
            ),
            r is Ok ==> (*final(self).block_data).elements@.remove(index as int) == old(self).block_data.elements@
                && final(self).spec_records() == old(self).spec_records().insert(
                index as int,
                crate::data::zeros(block_element_size(*old(self).layout, old(self).block_data.block_index as int) as nat),
            ),
            final(self).layout == old(self).layout,
            *final(final(self).block_data) == *final(old(self).block_data),
    {
        let len = self.block_data.elements.len();
        if index > len {
            return Err(TagIndexError::OutOfRange { index, len });
        }
        self.block_data.insert_at(self.layout, index);
        Ok(())
    }

    /// Duplicate element `index`, placing the copy at `index + 1`;
    /// returns the copy's index.
    pub fn duplicate(&mut self, index: usize) -> (r: Result<usize, TagIndexError>)
        requires
            old(self).inv(),
            old(self).block_data.raw_data@.len() + block_element_size(*old(self).layout, old(self).block_data.block_index as int)
                <= usize::MAX,
        ensures
            final(self).inv(),
            index >= old(self).block_data.elements@.len() <==> r is Err,
            r matches Err(e) ==> e == (TagIndexError::OutOfRange { index, len: old(self).block_data.elements@.len() as usize })
                && *final(self).block_data == *old(self).block_data,
            r matches Ok(i) ==> i == index + 1 && (*final(self).block_data).elements@.remove(index + 1)
                == old(self).block_data.elements@ && crate::data::struct_eq(
                old(self).block_data.elements@[index as int],
                (*final(self).block_data).elements@[index + 1],
            ) && final(self).spec_records() == old(self).spec_records().insert(
                index + 1,
                old(self).spec_records()[index as int],
            ),
            final(self).layout == old(self).layout,
            *final(final(self).block_data) == *final(old(self).block_data),
    {
        let len = self.block_data.elements.len();
        if index >= len {
            return Err(TagIndexError::OutOfRange { index, len });
        }
        self.block_data.duplicate_at(self.layout, index);
        Ok(index + 1)
    }

    /// Remove element `index`.
    pub fn delete(&mut self, index: usize) -> (r: Result<(), TagIndexError>)
        requires
            old(self).inv(),
        ensures
            final(self).inv(),
            index >= old(self).block_data.elements@.len() <==> r is Err,
            r matches Err(e) ==> e == (TagIndexError::OutOfRange { index, len: old(self).block_data.elements@.len() as usize })
                && *final(self).block_data == *old(self).block_data,
            r is Ok ==> (*final(self).block_data).elements@ == old(self).block_data.elements@.remove(index as int)
                && final(self).spec_records() == old(self).spec_records().remove(index as int),
            final(self).layout == old(self).layout,
            *final(final(self).block_data) == *final(old(self).block_data),
    {
        let len = self.block_data.elements.len();
        if index >= len {
            return Err(TagIndexError::OutOfRange { index, len });
        }
        self.block_data.delete_at(self.layout, index);
        Ok(())
    }

    /// Swap elements `i` and `j`.
    pub fn swap(&mut self, i: usize, j: usize) -> (r: Result<(), TagIndexError>)
        requires
            old(self).inv(),
        ensures
            final(self).inv(),
            (i >= old(self).block_data.elements@.len() || j >= old(self).block_data.elements@.len()) <==> r is Err,
            r matches Err(e) ==> e == (TagIndexError::OutOfRange {
                index: if i >= old(self).block_data.elements@.len() { i } else { j },
                len: old(self).block_data.elements@.len() as usize,
            }) && *final(self).block_data == *old(self).block_data,
            r is Ok ==> (*final(self).block_data).elements@ == old(self).block_data.elements@.update(
                i as int,
                old(self).block_data.elements@[j as int],
            ).update(j as int, old(self).block_data.elements@[i as int]) && final(self).spec_records()
                == old(self).spec_records().update(i as int, old(self).spec_records()[j as int]).update(
                j as int,
                old(self).spec_records()[i as int],
            ),
            final(self).layout == old(self).layout,
            *final(final(self).block_data) == *final(old(self).block_data),
    {
        let len = self.block_data.elements.len();
        if i >= len {
            return Err(TagIndexError::OutOfRange { index: i, len });
        }
        if j >= len {
            return Err(TagIndexError::OutOfRange { index: j, len });
        }
        self.block_data.swap_at(self.layout, i, j);
        Ok(())
    }

    /// Move element `from` to final position `to` (remove, then insert).
    pub fn move_to(&mut self, from: usize, to: usize) -> (r: Result<(), TagIndexError>)
        requires
            old(self).inv(),
        ensures
            final(self).inv(),
            (from >= old(self).block_data.elements@.len() || to >= old(self).block_data.elements@.len()) <==> r is Err,
            r matches Err(e) ==> e == (TagIndexError::OutOfRange {
                index: if from >= old(self).block_data.elements@.len() { from } else { to },
                len: old(self).block_data.elements@.len() as usize,
            }) && *final(self).block_data == *old(self).block_data,
            r is Ok ==> (*final(self).block_data).elements@ == old(self).block_data.elements@.remove(from as int).insert(
                to as int,
                old(self).block_data.elements@[from as int],
            ) && final(self).spec_records() == old(self).spec_records().remove(from as int).insert(
                to as int,
                old(self).spec_records()[from as int],
            ),
            final(self).layout == old(self).layout,
            *final(final(self).block_data) == *final(old(self).block_data),
    {
        let len = self.block_data.elements.len();
        if from >= len {
            return Err(TagIndexError::OutOfRange { index: from, len });
        }
        if to >= len {
            return Err(TagIndexError::OutOfRange { index: to, len });
        }
        self.block_data.move_at(self.layout, from, to);
        Ok(())
    }

    /// Remove all elements.
    pub fn clear(&mut self)
        requires
            old(self).inv(),
        ensures
            final(self).inv(),
            (*final(self).block_data).elements@.len() == 0,
            (*final(self).block_data).raw_data@.len() == 0,
            (*final(self).block_data).block_index == old(self).block_data.block_index,
            final(self).layout == old(self).layout,
            *final(final(self).block_data) == *final(old(self).block_data),
    {
        self.block_data.clear();
        assert(self.block_data.raw_data@.len() == self.block_data.elements@.len() * block_element_size(
            *self.layout,
            self.block_data.block_index as int,
        ));
    }
}

//================================================================================
// Structs
//================================================================================

/// Mutable handle on a struct instance: its tree, and the buffer holding
/// its bytes at `raw_start`.
pub struct TagStructMut<'a> {
    pub layout: &'a TagLayout,
    pub struct_data: &'a mut TagStructData,
    pub block_raw: &'a mut Vec<u8>,
    pub raw_start: usize,
}

impl<'a> TagStructMut<'a> {
    /// The struct tree behind the handle.
    pub open spec fn spec_struct(&self) -> TagStructData {
        *self.struct_data
    }

    /// Size in bytes of the struct.
    pub open spec fn spec_size(&self) -> int {
        self.layout.struct_layouts@[self.struct_data.struct_index as int].size as int
    }

    /// The struct's bytes.
    pub open spec fn spec_raw(&self) -> Seq<u8> {
        self.block_raw@.subrange(self.raw_start as int, self.raw_start + self.spec_size())
    }

    /// The handle's parts agree.
    pub open spec fn inv(&self) -> bool {
        &&& self.layout.wf()
        &&& struct_ok(*self.layout, *self.struct_data)
        &&& self.raw_start + self.spec_size() <= self.block_raw@.len()
    }

    /// Read-only view of the struct.
    pub fn as_ref(&self) -> (r: TagStruct<'_>)
        requires
            self.inv(),
        ensures
            r.spec_layout() == *self.layout,
            r.spec_data() == self.spec_struct(),
            r.spec_raw() == self.spec_raw(),
    {
        let size = self.layout.struct_layouts[self.struct_data.struct_index as usize].size;
        let total = self.block_raw.len();
        let raw = vstd::slice::slice_subrange(self.block_raw.as_slice(), self.raw_start, self.raw_start + size);
        TagStruct::new(self.layout, &*self.struct_data, raw)
    }

    /// Mutable handle on the first field named `name` (case-sensitive),
    /// no path descent.
    pub fn field_mut(&mut self, name: &str) -> (r: Option<TagFieldMut<'_>>)
        requires
            old(self).inv(),
        ensures
            r is Some <==> old(self).layout.named_from(
                old(self).layout.first_field(old(self).struct_data.struct_index as int),
                name@,
            ) is Some,
            r matches Some(f) ==> {
                &&& Some(f.field_index as int) == old(self).layout.named_from(
                    old(self).layout.first_field(old(self).struct_data.struct_index as int),
                    name@,
                )
                &&& f.inv()
                &&& f.layout == old(self).layout
                &&& *f.struct_data == *old(self).struct_data
                &&& *f.block_raw == *old(self).block_raw
                &&& f.raw_start == old(self).raw_start
                &&& *final(self).struct_data == *final(f.struct_data)
                &&& *final(self).block_raw == *final(f.block_raw)
            },
            r is None ==> *final(self).struct_data == *old(self).struct_data && *final(self).block_raw
                == *old(self).block_raw,
            final(self).layout == old(self).layout,
            final(self).raw_start == old(self).raw_start,
            *final(final(self).struct_data) == *final(old(self).struct_data),
            *final(final(self).block_raw) == *final(old(self).block_raw),
    {
        let layout = self.layout;
        let ghost s = self.struct_data.struct_index as int;
        let first = layout.struct_layouts[self.struct_data.struct_index as usize].first_field_index as usize;
        let ghost t = lemma_run_has_end(layout, s, first as int);
        let mut i = first;
        while layout.fields[i].field_type != TagFieldType::Terminator
            invariant
                layout.wf(),
                0 <= s < layout.struct_layouts@.len(),
                first == layout.first_field(s),
                first <= i <= t < layout.fields@.len(),
                layout.fields@[t].field_type == TagFieldType::Terminator,
                layout.no_terminator_between(first as int, i as int),
                layout.named_from(first as int, name@) == layout.named_from(i as int, name@),
                layout == old(self).layout,
                self.layout == old(self).layout,
                *self.struct_data == *old(self).struct_data,
                *self.block_raw == *old(self).block_raw,
                self.raw_start == old(self).raw_start,
                *final(self.struct_data) == *final(old(self).struct_data),
                *final(self.block_raw) == *final(old(self).block_raw),
                s == old(self).struct_data.struct_index,
                old(self).inv(),
            decreases t - i,
        {
            if layout.string_is(layout.fields[i].name_offset, name) {
                proof {
                    assert(layout.field_of_struct(s, i as int));
                }
                return Some(
                    TagFieldMut {
                        layout,
                        struct_data: &mut *self.struct_data,
                        block_raw: &mut *self.block_raw,
                        raw_start: self.raw_start,
                        field_index: i,
                    },
                );
            }
            i = i + 1;
        }
        None
    }

    /// Mutable handle on the field a `/`-separated path names (see
    /// [`crate::path::lookup`]), stepping into nested structs and into
    /// block and array elements (`name[N]`). What is written through the
    /// handle lands in this struct's tree and bytes at the place the path
    /// names, everything else staying as it was (see
    /// [`crate::path::put_back_path`]). `None`, with nothing changed, when
    /// the path does not resolve.
    pub fn field_path_mut(&mut self, path: &str) -> (r: Option<TagFieldMut<'_>>)
        requires
            old(self).inv(),
        ensures
            r is Some <==> crate::path::lookup(
                *old(self).layout,
                *old(self).struct_data,
                old(self).spec_raw(),
                crate::path::path_segments(path.spec_bytes()),
            ) is Some,
            r matches Some(f) ==> {
                &&& f.inv()
                &&& f.layout == old(self).layout
                &&& crate::path::lookup(
                    *old(self).layout,
                    *old(self).struct_data,
                    old(self).spec_raw(),
                    crate::path::path_segments(path.spec_bytes()),
                ) == Some((*f.struct_data, f.spec_raw(), f.field_index as int))
                &&& crate::path::put_back_path(
                    *old(self).layout,
                    *old(self).struct_data,
                    old(self).spec_raw(),
                    old(self).block_raw@,
                    crate::path::path_segments(path.spec_bytes()).drop_last(),
                    *final(f.struct_data),
                    final(f.block_raw)@,
                    *final(self).struct_data,
                    final(self).block_raw@,
                )
            },
            r is None ==> *final(self).struct_data == *old(self).struct_data && *final(self).block_raw
                == *old(self).block_raw,
            final(self).layout == old(self).layout,
            final(self).raw_start == old(self).raw_start,
            *final(final(self).struct_data) == *final(old(self).struct_data),
            *final(final(self).block_raw) == *final(old(self).block_raw),
    {
        let st = TagStructMut {
            layout: self.layout,
            struct_data: &mut *self.struct_data,
            block_raw: &mut *self.block_raw,
            raw_start: self.raw_start,
        };
        crate::path::lookup_mut_from_struct(st, path)
    }
}

//================================================================================
// Fields
//================================================================================

/// Mutable handle on one field of a struct instance.
pub struct TagFieldMut<'a> {
    pub layout: &'a TagLayout,
    pub struct_data: &'a mut TagStructData,
    pub block_raw: &'a mut Vec<u8>,
    pub raw_start: usize,
    pub field_index: usize,
}

impl<'a> TagFieldMut<'a> {
    /// The owning struct's tree.
    pub open spec fn spec_struct(&self) -> TagStructData {
        *self.struct_data
    }

    /// Size in bytes of the owning struct.
    pub open spec fn spec_size(&self) -> int {
        self.layout.struct_layouts@[self.struct_data.struct_index as int].size as int
    }

    /// The owning struct's bytes.
    pub open spec fn spec_raw(&self) -> Seq<u8> {
        self.block_raw@.subrange(self.raw_start as int, self.raw_start + self.spec_size())
    }

    /// The handle's parts agree and the field belongs to the struct.
    pub open spec fn inv(&self) -> bool {
        &&& self.layout.wf()
        &&& struct_ok(*self.layout, *self.struct_data)
        &&& self.raw_start + self.spec_size() <= self.block_raw@.len()
        &&& self.layout.field_of_struct(self.struct_data.struct_index as int, self.field_index as int)
    }

    /// Read-only view of the field.
    pub fn as_ref(&self) -> (r: TagField<'_>)
        requires
            self.inv(),
        ensures
            r.spec_layout() == *self.layout,
            r.spec_data() == self.spec_struct(),
            r.spec_raw() == self.spec_raw(),
            r.spec_field_index() == self.field_index,
    {
        let size = self.layout.struct_layouts[self.struct_data.struct_index as usize].size;
        let total = self.block_raw.len();
        let raw = vstd::slice::slice_subrange(self.block_raw.as_slice(), self.raw_start, self.raw_start + size);
        TagField::new(self.layout, &*self.struct_data, raw, self.field_index)
    }

    /// Mutable handle on a block field. `None` when the field is not a
    /// block or its sub-chunk is missing.
    pub fn as_block_mut(&mut self) -> (r: Option<TagBlockMut<'_>>)
        requires
            old(self).inv(),
        ensures
            r is Some <==> old(self).layout.fields@[old(self).field_index as int].field_type == TagFieldType::Block
                && (entry_of(old(self).struct_data.sub_chunks@, old(self).field_index as int) matches Some(j)
                && old(self).struct_data.sub_chunks@[j].content is Block),
            r matches Some(b) ==> {
                &&& b.inv()
                &&& b.layout == old(self).layout
                &&& entry_of(old(self).struct_data.sub_chunks@, old(self).field_index as int) matches Some(j)
                    && old(self).struct_data.sub_chunks@[j].content == TagSubChunkContent::Block(*b.block_data)
                    && (*final(self).struct_data).struct_index == old(self).struct_data.struct_index
                    && (*final(self).struct_data).sub_chunks@ == old(self).struct_data.sub_chunks@.update(
                    j,
                    crate::data::TagSubChunkEntry {
                        field_index: old(self).struct_data.sub_chunks@[j].field_index,
                        content: TagSubChunkContent::Block(*final(b.block_data)),
                    },
                )
            },
            r is None ==> *final(self).struct_data == *old(self).struct_data,
            *final(self).block_raw == *old(self).block_raw,
            final(self).layout == old(self).layout,
            final(self).raw_start == old(self).raw_start,
            final(self).field_index == old(self).field_index,
            *final(final(self).struct_data) == *final(old(self).struct_data),
            *final(final(self).block_raw) == *final(old(self).block_raw),
    {
        if self.layout.fields[self.field_index].field_type != TagFieldType::Block {
            return None;
        }
        let layout = self.layout;
        match find_entry(&self.struct_data.sub_chunks, self.field_index) {
            Some(j) => {
                proof {
                    assert(entry_ok(*layout, self.struct_data.struct_index as int, self.struct_data.sub_chunks@[j as int]));
                }
                match &self.struct_data.sub_chunks[j].content {
                    TagSubChunkContent::Block(_) => {},
                    _ => {
                        return None;
                    },
                }
                let data: &mut TagStructData = &mut *self.struct_data;
                let entry = &mut data.sub_chunks[j];
                match &mut entry.content {
                    TagSubChunkContent::Block(block_data) => Some(TagBlockMut { layout, block_data }),
                    _ => None,
                }
            },
            None => None,
        }
    }
}

//================================================================================
// Nested handles
//================================================================================

impl<'a> TagFieldMut<'a> {
    /// Mutable handle on a struct field. `None` when the field is not a
    /// struct or its sub-chunk is missing.
    pub fn as_struct_mut(&mut self) -> (r: Option<TagStructMut<'_>>)
        requires
            old(self).inv(),
        ensures
            r is Some <==> old(self).layout.fields@[old(self).field_index as int].field_type == TagFieldType::Struct
                && (entry_of(old(self).struct_data.sub_chunks@, old(self).field_index as int) matches Some(j)
                && old(self).struct_data.sub_chunks@[j].content is Struct),
            r matches Some(m) ==> {
                &&& m.inv()
                &&& m.layout == old(self).layout
                &&& *m.block_raw == *old(self).block_raw
                &&& m.raw_start == old(self).raw_start + old(self).layout.fields@[old(self).field_index as int].offset
                &&& *final(self).block_raw == *final(m.block_raw)
                &&& entry_of(old(self).struct_data.sub_chunks@, old(self).field_index as int) matches Some(j)
                    && old(self).struct_data.sub_chunks@[j].content == TagSubChunkContent::Struct(*m.struct_data)
                    && (*final(self).struct_data).struct_index == old(self).struct_data.struct_index
                    && (*final(self).struct_data).sub_chunks@ == old(self).struct_data.sub_chunks@.update(
                    j,
                    crate::data::TagSubChunkEntry {
                        field_index: old(self).struct_data.sub_chunks@[j].field_index,
                        content: TagSubChunkContent::Struct(*final(m.struct_data)),
                    },
                )
            },
            r is None ==> *final(self).struct_data == *old(self).struct_data && *final(self).block_raw
                == *old(self).block_raw,
            final(self).layout == old(self).layout,
            final(self).raw_start == old(self).raw_start,
            final(self).field_index == old(self).field_index,
            *final(final(self).struct_data) == *final(old(self).struct_data),
            *final(final(self).block_raw) == *final(old(self).block_raw),
    {
        let layout = self.layout;
        let field = layout.fields[self.field_index];
        if field.field_type != TagFieldType::Struct {
            return None;
        }
        match find_entry(&self.struct_data.sub_chunks, self.field_index) {
            Some(j) => {
                proof {
                    assert(entry_ok(*layout, self.struct_data.struct_index as int, self.struct_data.sub_chunks@[j as int]));
                    assert(layout.field_of_struct(self.struct_data.struct_index as int, self.field_index as int));
                }
                match &self.struct_data.sub_chunks[j].content {
                    TagSubChunkContent::Struct(_) => {},
                    _ => {
                        return None;
                    },
                }
                let total = self.block_raw.len();
                let raw_start = self.raw_start + field.offset as usize;
                let data: &mut TagStructData = &mut *self.struct_data;
                let entry = &mut data.sub_chunks[j];
                let block_raw = &mut *self.block_raw;
                match &mut entry.content {
                    TagSubChunkContent::Struct(nested) => Some(
                        TagStructMut { layout, struct_data: nested, block_raw, raw_start },
                    ),
                    _ => None,
                }
            },
            None => None,
        }
    }

    /// Mutable handle on an inline array field. `None` when the field is
    /// not an array or its sub-chunk is missing.
    pub fn as_array_mut(&mut self) -> (r: Option<TagArrayMut<'_>>)
        requires
            old(self).inv(),
        ensures
            r is Some <==> old(self).layout.fields@[old(self).field_index as int].field_type == TagFieldType::Array
                && (entry_of(old(self).struct_data.sub_chunks@, old(self).field_index as int) matches Some(j)
                && old(self).struct_data.sub_chunks@[j].content is Array),
            r matches Some(m) ==> {
                &&& m.inv()
                &&& m.layout == old(self).layout
                &&& m.array_layout_index == old(self).layout.fields@[old(self).field_index as int].definition
                &&& *m.block_raw == *old(self).block_raw
                &&& m.raw_start == old(self).raw_start + old(self).layout.fields@[old(self).field_index as int].offset
                &&& *final(self).block_raw == *final(m.block_raw)
                &&& entry_of(old(self).struct_data.sub_chunks@, old(self).field_index as int) matches Some(j)
                    && old(self).struct_data.sub_chunks@[j].content == TagSubChunkContent::Array(*m.elements)
                    && (*final(self).struct_data).struct_index == old(self).struct_data.struct_index
                    && (*final(self).struct_data).sub_chunks@ == old(self).struct_data.sub_chunks@.update(
                    j,
                    crate::data::TagSubChunkEntry {
                        field_index: old(self).struct_data.sub_chunks@[j].field_index,
                        content: TagSubChunkContent::Array(*final(m.elements)),
                    },
                )
            },
            r is None ==> *final(self).struct_data == *old(self).struct_data && *final(self).block_raw
                == *old(self).block_raw,
            final(self).layout == old(self).layout,
            final(self).raw_start == old(self).raw_start,
            final(self).field_index == old(self).field_index,
            *final(final(self).struct_data) == *final(old(self).struct_data),
            *final(final(self).block_raw) == *final(old(self).block_raw),
    {
        let layout = self.layout;
        let field = layout.fields[self.field_index];
        if field.field_type != TagFieldType::Array {
            return None;
        }
        match find_entry(&self.struct_data.sub_chunks, self.field_index) {
            Some(j) => {
                proof {
                    assert(entry_ok(*layout, self.struct_data.struct_index as int, self.struct_data.sub_chunks@[j as int]));
                    assert(layout.field_of_struct(self.struct_data.struct_index as int, self.field_index as int));
                }
                match &self.struct_data.sub_chunks[j].content {
                    TagSubChunkContent::Array(els) => {
                        proof {
                            let a = field.definition as int;
                            assert(els@.len() * layout.array_element_size(a) == layout.field_extent(self.field_index as int))
                                by (nonlinear_arith)
                                requires
                                    els@.len() == layout.array_layouts@[a].count,
                                    layout.field_extent(self.field_index as int) == layout.array_element_size(a)
                                        * (layout.array_layouts@[a].count as int),
                            ;
                        }
                    },
                    _ => {
                        return None;
                    },
                }
                let total = self.block_raw.len();
                let raw_start = self.raw_start + field.offset as usize;
                let data: &mut TagStructData = &mut *self.struct_data;
                let entry = &mut data.sub_chunks[j];
                let block_raw = &mut *self.block_raw;
                match &mut entry.content {
                    TagSubChunkContent::Array(elements) => Some(
                        TagArrayMut { layout, array_layout_index: field.definition, elements, block_raw, raw_start },
                    ),
                    _ => None,
                }
            },
            None => None,
        }
    }
}

//================================================================================
// Arrays
//================================================================================

/// Mutable handle on an inline array: fixed count, so elements can be
/// edited and reordered but not added or removed.
pub struct TagArrayMut<'a> {
    pub layout: &'a TagLayout,
    pub array_layout_index: u32,
    pub elements: &'a mut Vec<TagStructData>,
    pub block_raw: &'a mut Vec<u8>,
    pub raw_start: usize,
}

impl<'a> TagArrayMut<'a> {
    /// Size of one element.
    pub open spec fn spec_element_size(&self) -> int {
        self.layout.array_element_size(self.array_layout_index as int)
    }

    /// The element trees behind the handle.
    pub open spec fn spec_elements(&self) -> Seq<TagStructData> {
        self.elements@
    }

    /// The handle's parts agree.
    pub open spec fn inv(&self) -> bool {
        &&& self.layout.wf()
        &&& self.array_layout_index < self.layout.array_layouts@.len()
        &&& self.raw_start + self.elements@.len() * self.spec_element_size() <= self.block_raw@.len()
        &&& forall|k: int|
            0 <= k < self.elements@.len() ==> {
                &&& (#[trigger] self.elements@[k]).struct_index
                    == self.layout.array_layouts@[self.array_layout_index as int].struct_index
                &&& struct_ok(*self.layout, self.elements@[k])
            }
    }

    /// The array definition.
    pub fn definition(&self) -> (r: &TagArrayLayout)
        requires
            self.inv(),
        ensures
            *r == self.layout.array_layouts@[self.array_layout_index as int],
    {
        &self.layout.array_layouts[self.array_layout_index as usize]
    }

    /// Number of elements.
    pub fn len(&self) -> (r: usize)
        ensures
            r == self.spec_elements().len(),
    {
        self.elements.len()
    }

    /// Whether the array has no elements.
    pub fn is_empty(&self) -> (r: bool)
        ensures
            r == (self.spec_elements().len() == 0),
    {
        self.elements.len() == 0
    }

    /// Mutable handle on element `index`, or `None` past the end.
    pub fn element_mut(&mut self, index: usize) -> (r: Option<TagStructMut<'_>>)
        requires
            old(self).inv(),
        ensures
            r is Some <==> index < old(self).elements@.len(),
            r matches Some(m) ==> {
                &&& m.inv()
                &&& m.layout == old(self).layout
                &&& *m.struct_data == old(self).elements@[index as int]
                &&& *m.block_raw == *old(self).block_raw
                &&& m.raw_start == old(self).raw_start + index * old(self).spec_element_size()
                &&& final(self).elements@ == old(self).elements@.update(index as int, *final(m.struct_data))
                &&& *final(self).block_raw == *final(m.block_raw)
            },
            r is None ==> final(self).elements@ == old(self).elements@ && *final(self).block_raw == *old(self).block_raw,
            final(self).layout == old(self).layout,
            final(self).raw_start == old(self).raw_start,
            final(self).array_layout_index == old(self).array_layout_index,
            *final(final(self).elements) == *final(old(self).elements),
            *final(final(self).block_raw) == *final(old(self).block_raw),
    {
        if index >= self.elements.len() {
            return None;
        }
        let layout = self.layout;
        let size = layout.struct_layouts[layout.array_layouts[self.array_layout_index as usize].struct_index as usize].size;
        let total = self.block_raw.len();
        proof {
            lemma_record_bounds(size as int, index as int, self.elements@.len() as int);
            assert(index * size + size <= self.elements@.len() * size);
        }
        let raw_start = self.raw_start + index * size;
        let struct_data = &mut self.elements[index];
        let block_raw = &mut *self.block_raw;
        Some(TagStructMut { layout, struct_data, block_raw, raw_start })
    }
}

//================================================================================
// Flags
//================================================================================

/// `v` with bit `bit` set (`on`) or cleared; bits past 63 leave it as is.
pub open spec fn with_bit(v: u64, bit: u32, on: bool) -> u64 {
    if bit >= 64 {
        v
    } else if on {
        v | (1u64 << bit)
    } else {
        v & !(1u64 << bit)
    }
}

/// Number of bits of a flags-shaped field type.
pub open spec fn flags_bits(t: TagFieldType) -> u32 {
    match t {
        TagFieldType::ByteFlags | TagFieldType::ByteBlockFlags => 8,
        TagFieldType::WordFlags | TagFieldType::WordBlockFlags => 16,
        TagFieldType::LongFlags | TagFieldType::LongBlockFlags => 32,
        _ => 0,
    }
}

/// `buf` with the flags value `v` of type `t` stored little-endian at `p`
/// (truncated to the type's width); unchanged for other types.
pub open spec fn write_flags(buf: Seq<u8>, p: int, t: TagFieldType, v: u64) -> Seq<u8> {
    match t {
        TagFieldType::ByteFlags | TagFieldType::ByteBlockFlags => buf.update(p, (v % 256) as u8),
        TagFieldType::WordFlags | TagFieldType::WordBlockFlags => buf.update(p, (v % 256) as u8).update(
            p + 1,
            ((v / 256) % 256) as u8,
        ),
        TagFieldType::LongFlags | TagFieldType::LongBlockFlags => buf.update(p, (v % 256) as u8).update(
            p + 1,
            ((v / 256) % 256) as u8,
        ).update(p + 2, ((v / 65536) % 256) as u8).update(p + 3, ((v / 16777216) % 256) as u8),
        _ => buf,
    }
}

fn set_bit(v: u64, bit: u32, on: bool) -> (r: u64)
    ensures
        r == with_bit(v, bit, on),
{
    if bit >= 64 {
        v
    } else if on {
        v | (1u64 << bit)
    } else {
        v & !(1u64 << bit)
    }
}

fn store_flags(buf: &mut Vec<u8>, p: usize, t: TagFieldType, v: u64)
    requires
        p + TagLayout::value_width(t) <= old(buf)@.len(),
    ensures
        final(buf)@ == write_flags(old(buf)@, p as int, t, v),
{
    let total = buf.len();
    proof {
        crate::bytes::lemma_u64_low_bytes(v);
    }
    match t {
        TagFieldType::ByteFlags | TagFieldType::ByteBlockFlags => {
            buf.set(p, (v & 0xFF) as u8);
        },
        TagFieldType::WordFlags | TagFieldType::WordBlockFlags => {
            buf.set(p, (v & 0xFF) as u8);
            buf.set(p + 1, ((v >> 8) & 0xFF) as u8);
        },
        TagFieldType::LongFlags | TagFieldType::LongBlockFlags => {
            buf.set(p, (v & 0xFF) as u8);
            buf.set(p + 1, ((v >> 8) & 0xFF) as u8);
            buf.set(p + 2, ((v >> 16) & 0xFF) as u8);
            buf.set(p + 3, ((v >> 24) & 0xFF) as u8);
        },
        _ => {},
    }
}

/// Writing a flag bit and reading the field back gives that bit in the
/// requested state, with every other bit of the field as it was.
pub proof fn lemma_flag_write_read(buf: Seq<u8>, p: int, t: TagFieldType, v: u64, bit: u32, on: bool, other: u32)
    requires
        flags_bits(t) > 0,
        0 <= p,
        p + TagLayout::value_width(t) <= buf.len(),
        flags_value_of(t, buf, p) == Some(v),
        bit < flags_bits(t),
        other < flags_bits(t),
        other != bit,
    ensures
        flags_value_of(t, write_flags(buf, p, t, with_bit(v, bit, on)), p) matches Some(w) && bit_of(w, bit) == on
            && bit_of(w, other) == bit_of(v, other),
{
    let w = with_bit(v, bit, on);
    let nb = write_flags(buf, p, t, w);
    match t {
        TagFieldType::ByteFlags | TagFieldType::ByteBlockFlags => {
            let b0 = buf[p];
            assert(v == b0 as u64);
            assert(nb[p] == (w % 256) as u8);
            assert(bit < 8 && other < 8 && other != bit ==> (((with_bit(b0 as u64, bit, on) % 256) as u8 as u64) >> bit) & 1
                == if on { 1u64 } else { 0u64 } && ((((with_bit(b0 as u64, bit, on) % 256) as u8 as u64) >> other) & 1)
                == ((b0 as u64 >> other) & 1)) by (bit_vector);
        },
        TagFieldType::WordFlags | TagFieldType::WordBlockFlags => {
            let x = le_u16(buf, p);
            assert(v == x as u64);
            assert(le_u16(nb, p) == (((w % 256) as u8) as nat + 256 * ((((w / 256) % 256) as u8) as nat)) as u16);
            assert(bit < 16 && other < 16 && other != bit ==> {
                let ww = with_bit(x as u64, bit, on);
                let y = ((((ww % 256) as u8) as u64 + 256 * ((((ww / 256) % 256) as u8) as u64)) as u16) as u64;
                (y >> bit) & 1 == if on { 1u64 } else { 0u64 } && (y >> other) & 1 == (x as u64 >> other) & 1
            }) by (bit_vector);
        },
        _ => {
            let x = le_u32(buf, p);
            assert(v == x as u64);
            assert(le_u32(nb, p) == (((w % 256) as u8) as nat + 256 * ((((w / 256) % 256) as u8) as nat) + 65536 * ((((w
                / 65536) % 256) as u8) as nat) + 16777216 * ((((w / 16777216) % 256) as u8) as nat)) as u32);
            assert(bit < 32 && other < 32 && other != bit ==> {
                let ww = with_bit(x as u64, bit, on);
                let y = ((((ww % 256) as u8) as u64 + 256 * ((((ww / 256) % 256) as u8) as u64) + 65536 * ((((ww / 65536)
                    % 256) as u8) as u64) + 16777216 * ((((ww / 16777216) % 256) as u8) as u64)) as u32) as u64;
                (y >> bit) & 1 == if on { 1u64 } else { 0u64 } && (y >> other) & 1 == (x as u64 >> other) & 1
            }) by (bit_vector);
        },
    }
}

/// `buf` with bit `bit` of the flags value of type `t` at `p` flipped
/// (what [`TagFlagMut::toggle`] does to the buffer); unchanged when `t`
/// is not flags-shaped.
pub open spec fn toggled(buf: Seq<u8>, p: int, t: TagFieldType, bit: u32) -> Seq<u8> {
    match flags_value_of(t, buf, p) {
        Some(v) => write_flags(buf, p, t, with_bit(v, bit, !bit_of(v, bit))),
        None => buf,
    }
}

/// Toggling a flag bit twice gives back the field: the first toggle flips
/// the bit, and the second writes back the bytes the field had before.
pub proof fn lemma_toggle_twice_restores(buf: Seq<u8>, p: int, t: TagFieldType, bit: u32)
    requires
        flags_bits(t) > 0,
        0 <= p,
        p + TagLayout::value_width(t) <= buf.len(),
        bit < flags_bits(t),
    ensures
        flags_value_of(t, toggled(buf, p, t, bit), p) matches Some(v1) && bit_of(v1, bit) == !bit_of(
            flags_value_of(t, buf, p)->Some_0,
            bit,
        ),
        toggled(toggled(buf, p, t, bit), p, t, bit) == buf,
{
    let v = flags_value_of(t, buf, p)->Some_0;
    let b0 = bit_of(v, bit);
    let buf1 = write_flags(buf, p, t, with_bit(v, bit, !b0));
    let v1 = flags_value_of(t, buf1, p)->Some_0;
    let buf2 = write_flags(buf1, p, t, with_bit(v1, bit, b0));
    match t {
        TagFieldType::ByteFlags | TagFieldType::ByteBlockFlags => {
            let x = buf[p];
            assert(bit < 8 ==> {
                let b = (((x as u64) >> bit) & 1u64) == 1u64;
                let w1 = if !b { (x as u64) | (1u64 << bit) } else { (x as u64) & !(1u64 << bit) };
                let y = (w1 % 256) as u8;
                let w2 = if b { (y as u64) | (1u64 << bit) } else { (y as u64) & !(1u64 << bit) };
                &&& (((y as u64) >> bit) & 1u64 == 1u64) == !b
                &&& (w2 % 256) as u8 == x
            }) by (bit_vector);
            assert(buf2 =~= buf);
        },
        TagFieldType::WordFlags | TagFieldType::WordBlockFlags => {
            let lo = buf[p];
            let hi = buf[p + 1];
            assert(v == le_u16(buf, p) as u64);
            assert(bit < 16 ==> {
                let x = ((lo as nat + 256 * (hi as nat)) as u16) as u64;
                let b = ((x >> bit) & 1u64) == 1u64;
                let w1 = if !b { x | (1u64 << bit) } else { x & !(1u64 << bit) };
                let lo1 = (w1 % 256) as u8;
                let hi1 = ((w1 / 256) % 256) as u8;
                let y = ((lo1 as nat + 256 * (hi1 as nat)) as u16) as u64;
                let w2 = if b { y | (1u64 << bit) } else { y & !(1u64 << bit) };
                &&& ((y >> bit) & 1u64 == 1u64) == !b
                &&& (w2 % 256) as u8 == lo
                &&& ((w2 / 256) % 256) as u8 == hi
            }) by (bit_vector);
            assert(le_u16(buf1, p) == ((buf1[p] as nat + 256 * (buf1[p + 1] as nat)) as u16));
            assert(buf2 =~= buf);
        },
        _ => {
            let b0_ = buf[p];
            let b1_ = buf[p + 1];
            let b2_ = buf[p + 2];
            let b3_ = buf[p + 3];
            assert(v == le_u32(buf, p) as u64);
            assert(bit < 32 ==> {
                let x = ((b0_ as nat + 256 * (b1_ as nat) + 65536 * (b2_ as nat) + 16777216 * (b3_ as nat)) as u32) as u64;
                let b = ((x >> bit) & 1u64) == 1u64;
                let w1 = if !b { x | (1u64 << bit) } else { x & !(1u64 << bit) };
                let c0 = (w1 % 256) as u8;
                let c1 = ((w1 / 256) % 256) as u8;
                let c2 = ((w1 / 65536) % 256) as u8;
                let c3 = ((w1 / 16777216) % 256) as u8;
                let y = ((c0 as nat + 256 * (c1 as nat) + 65536 * (c2 as nat) + 16777216 * (c3 as nat)) as u32) as u64;
                let w2 = if b { y | (1u64 << bit) } else { y & !(1u64 << bit) };
                &&& ((y >> bit) & 1u64 == 1u64) == !b
                &&& (w2 % 256) as u8 == b0_
                &&& ((w2 / 256) % 256) as u8 == b1_
                &&& ((w2 / 65536) % 256) as u8 == b2_
                &&& ((w2 / 16777216) % 256) as u8 == b3_
            }) by (bit_vector);
            assert(buf2 =~= buf);
        },
    }
}

impl<'a> TagFieldMut<'a> {
    /// Position of the field's bytes in the buffer.
    pub open spec fn spec_value_pos(&self) -> int {
        self.raw_start + self.layout.fields@[self.field_index as int].offset
    }

    /// Mutable handle on the flag bit named `name` (case-sensitive).
    pub fn flag_mut(&mut self, name: &str) -> (r: Option<TagFlagMut<'_>>)
        requires
            old(self).inv(),
        ensures
            r is Some <==> old(self).layout.flag_named_from(old(self).field_index as int, 0, name@) is Some,
            r matches Some(f) ==> {
                &&& Some(f.bit) == old(self).layout.flag_named_from(old(self).field_index as int, 0, name@)
                &&& f.field.inv()
                &&& f.field.layout == old(self).layout
                &&& f.field.field_index == old(self).field_index
                &&& f.field.raw_start == old(self).raw_start
                &&& *f.field.struct_data == *old(self).struct_data
                &&& *f.field.block_raw == *old(self).block_raw
                &&& *final(self).struct_data == *final(f.field.struct_data)
                &&& *final(self).block_raw == *final(f.field.block_raw)
            },
            r is None ==> *final(self).struct_data == *old(self).struct_data && *final(self).block_raw
                == *old(self).block_raw,
            final(self).layout == old(self).layout,
            final(self).raw_start == old(self).raw_start,
            final(self).field_index == old(self).field_index,
            *final(final(self).struct_data) == *final(old(self).struct_data),
            *final(final(self).block_raw) == *final(old(self).block_raw),
    {
        match self.layout.find_flag_bit(self.field_index, name) {
            Some(bit) => Some(
                TagFlagMut {
                    field: TagFieldMut {
                        layout: self.layout,
                        struct_data: &mut *self.struct_data,
                        block_raw: &mut *self.block_raw,
                        raw_start: self.raw_start,
                        field_index: self.field_index,
                    },
                    bit,
                },
            ),
            None => None,
        }
    }
}

/// Mutable handle on one flag bit of a field.
pub struct TagFlagMut<'a> {
    pub field: TagFieldMut<'a>,
    pub bit: u32,
}

impl<'a> TagFlagMut<'a> {
    /// The flag's option name, or `""`.
    pub fn name(&self) -> (r: &str)
        requires
            self.field.inv(),
        ensures
            r@ == flag_name_of(*self.field.layout, self.field.field_index as int, self.bit),
    {
        self.field.as_ref().flag_name(self.bit)
    }

    /// The flag's bit index.
    pub fn bit(&self) -> (r: u32)
        ensures
            r == self.bit,
    {
        self.bit
    }

    /// Whether the flag is set.
    pub fn is_set(&self) -> (r: bool)
        requires
            self.field.inv(),
        ensures
            r == flag_is_set(*self.field.layout, self.field.spec_raw(), self.field.field_index as int, self.bit),
    {
        self.field.as_ref().flag_set(self.bit)
    }

    /// Set (`on`) or clear the flag. Fields that are not flags-shaped
    /// are left alone.
    pub fn set(&mut self, on: bool)
        requires
            old(self).field.inv(),
        ensures
            final(self).field.inv(),
            ({
                let t = old(self).field.layout.fields@[old(self).field.field_index as int].field_type;
                let p = old(self).field.spec_value_pos();
                match flags_value_of(t, old(self).field.block_raw@, p) {
                    Some(v) => final(self).field.block_raw@ == write_flags(
                        old(self).field.block_raw@,
                        p,
                        t,
                        with_bit(v, old(self).bit, on),
                    ),
                    None => final(self).field.block_raw@ == old(self).field.block_raw@,
                }
            }),
            *final(self).field.struct_data == *old(self).field.struct_data,
            final(self).field.layout == old(self).field.layout,
            final(self).field.raw_start == old(self).field.raw_start,
            final(self).field.field_index == old(self).field.field_index,
            final(self).bit == old(self).bit,
            *final(final(self).field.struct_data) == *final(old(self).field.struct_data),
            *final(final(self).field.block_raw) == *final(old(self).field.block_raw),
    {
        let layout = self.field.layout;
        proof {
            assert(layout.field_of_struct(self.field.struct_data.struct_index as int, self.field.field_index as int));
        }
        let field = layout.fields[self.field.field_index];
        let total = self.field.block_raw.len();
        let p = self.field.raw_start + field.offset as usize;
        match read_flags_at(self.field.block_raw.as_slice(), p, field.field_type) {
            Some(v) => {
                let w = set_bit(v, self.bit, on);
                store_flags(&mut *self.field.block_raw, p, field.field_type, w);
            },
            None => {},
        }
    }

    /// Toggle the flag; returns its new state.
    pub fn toggle(&mut self) -> (r: bool)
        requires
            old(self).field.inv(),
        ensures
            final(self).field.inv(),
            r == !flag_is_set(*old(self).field.layout, old(self).field.spec_raw(), old(self).field.field_index as int, old(self).bit),
            ({
                let t = old(self).field.layout.fields@[old(self).field.field_index as int].field_type;
                let p = old(self).field.spec_value_pos();
                match flags_value_of(t, old(self).field.block_raw@, p) {
                    Some(v) => final(self).field.block_raw@ == write_flags(
                        old(self).field.block_raw@,
                        p,
                        t,
                        with_bit(v, old(self).bit, r),
                    ),
                    None => final(self).field.block_raw@ == old(self).field.block_raw@,
                }
            }),
            final(self).field.block_raw@ == toggled(
                old(self).field.block_raw@,
                old(self).field.spec_value_pos(),
                old(self).field.layout.fields@[old(self).field.field_index as int].field_type,
                old(self).bit,
            ),
            *final(self).field.struct_data == *old(self).field.struct_data,
            final(self).field.layout == old(self).field.layout,
            final(self).field.raw_start == old(self).field.raw_start,
            final(self).field.field_index == old(self).field.field_index,
            final(self).bit == old(self).bit,
            *final(final(self).field.struct_data) == *final(old(self).field.struct_data),
            *final(final(self).field.block_raw) == *final(old(self).field.block_raw),
    {
        let new_state = !self.is_set();
        self.set(new_state);
        new_state
    }
}

/// Read a flags-shaped value of type `t` at `p`.
fn read_flags_at(raw: &[u8], p: usize, t: TagFieldType) -> (r: Option<u64>)
    requires
        p + TagLayout::value_width(t) <= raw@.len(),
    ensures
        r == flags_value_of(t, raw@, p as int),
{
    match t {
        TagFieldType::ByteFlags | TagFieldType::ByteBlockFlags => Some(raw[p] as u64),
        TagFieldType::WordFlags | TagFieldType::WordBlockFlags => Some(read_u16_le(raw, p) as u64),
        TagFieldType::LongFlags | TagFieldType::LongBlockFlags => Some(read_u32_le(raw, p) as u64),
        _ => None,
    }
}

//================================================================================
// Visitors and array reordering
//================================================================================

/// `f` was called with a handle on struct instance `d`, as it stood at the
/// call, whose bytes start at `base + k * size` of its buffer.
pub open spec fn handed_struct<F: FnMut(TagStructMut<'_>)>(
    f: F,
    layout: TagLayout,
    d: TagStructData,
    base: int,
    k: int,
    size: int,
) -> bool {
    exists|h: TagStructMut<'_>|
        #![trigger call_ensures(f, (h,), ())]
        {
            &&& call_ensures(f, (h,), ())
            &&& *h.layout == layout
            &&& *h.struct_data == d
            &&& h.raw_start == base + k * size
        }
}

/// `f` was called with a handle on field `fi` of a struct whose bytes
/// start at `start`.
pub open spec fn handed_field<F: FnMut(TagFieldMut<'_>)>(f: F, layout: TagLayout, fi: int, start: int) -> bool {
    exists|h: TagFieldMut<'_>|
        #![trigger call_ensures(f, (h,), ())]
        {
            &&& call_ensures(f, (h,), ())
            &&& *h.layout == layout
            &&& h.field_index == fi
            &&& h.raw_start == start
        }
}

impl<'a> TagBlockMut<'a> {
    /// Call `f` with a mutable handle on each element, in order: element
    /// `k`, as it stands before its call, at byte `k * size` of the block.
    /// The number of elements is unchanged; what the elements become is up
    /// to `f`.
    pub fn for_each_element_mut<F>(&mut self, f: F)
        where F: FnMut(TagStructMut<'_>),
        requires
            old(self).inv(),
            forall|h: TagStructMut<'_>| call_requires(f, (h,)),
        ensures
            (*final(self).block_data).elements@.len() == old(self).block_data.elements@.len(),
            final(self).layout == old(self).layout,
            *final(final(self).block_data) == *final(old(self).block_data),
            forall|k: int|
                0 <= k < old(self).block_data.elements@.len() ==> #[trigger] handed_struct(
                    f,
                    *old(self).layout,
                    old(self).block_data.elements@[k],
                    0,
                    k,
                    block_element_size(*old(self).layout, old(self).block_data.block_index as int),
                ),
    {
        let layout = self.layout;
        let size = self.block_data.element_size(layout);
        let count = self.block_data.elements.len();
        let total = self.block_data.raw_data.len();
        let ghost esize = block_element_size(*layout, old(self).block_data.block_index as int);
        let mut g = f;
        let mut i: usize = 0;
        while i < count
            invariant
                g == f,
                i <= count,
                count * size <= usize::MAX,
                count == self.block_data.elements@.len(),
                count == old(self).block_data.elements@.len(),
                self.layout == old(self).layout,
                layout == self.layout,
                forall|h: TagStructMut<'_>| call_requires(g, (h,)),
                *final(self.block_data) == *final(old(self).block_data),
                size == esize,
                esize == block_element_size(*old(self).layout, old(self).block_data.block_index as int),
                forall|k: int| i <= k < count ==> self.block_data.elements@[k] == old(self).block_data.elements@[k],
                forall|k: int|
                    0 <= k < i ==> #[trigger] handed_struct(
                        f,
                        *old(self).layout,
                        old(self).block_data.elements@[k],
                        0,
                        k,
                        esize,
                    ),
            decreases count - i,
        {
            proof {
                lemma_record_bounds(size as int, i as int, count as int);
            }
            let start = i * size;
            let block: &mut TagBlockData = &mut *self.block_data;
            let struct_data = &mut block.elements[i];
            let block_raw = &mut block.raw_data;
            let h = TagStructMut { layout, struct_data, block_raw, raw_start: start };
            let ghost gh = h;
            g(h);
            proof {
                assert(call_ensures(f, (gh,), ()));
                assert(handed_struct(f, *old(self).layout, old(self).block_data.elements@[i as int], 0, i as int, esize));
            }
            i = i + 1;
        }
    }
}

impl<'a> TagStructMut<'a> {
    /// Call `f` with a mutable handle on each user-addressable field, in
    /// declaration order (padding, explanations and unknown-typed fields
    /// left out): every field of [`TagLayout::visible_fields`] of the
    /// struct, on its bytes at `raw_start`. What the fields become is up
    /// to `f`.
    pub fn for_each_field_mut<F>(&mut self, f: F)
        where F: FnMut(TagFieldMut<'_>),
        requires
            old(self).inv(),
            forall|h: TagFieldMut<'_>| call_requires(f, (h,)),
        ensures
            final(self).layout == old(self).layout,
            final(self).raw_start == old(self).raw_start,
            *final(final(self).struct_data) == *final(old(self).struct_data),
            *final(final(self).block_raw) == *final(old(self).block_raw),
            forall|k: int|
                0 <= k < old(self).layout.visible_fields(old(self).struct_data.struct_index as int).len()
                    ==> #[trigger] handed_field(
                    f,
                    *old(self).layout,
                    old(self).layout.visible_fields(old(self).struct_data.struct_index as int)[k],
                    old(self).raw_start as int,
                ),
    {
        let layout = self.layout;
        let ghost s = self.struct_data.struct_index as int;
        let ghost want = layout.visible_fields(s);
        let first = layout.struct_layouts[self.struct_data.struct_index as usize].first_field_index as usize;
        let ghost t = lemma_run_has_end(layout, s, first as int);
        let ghost mut done: Seq<int> = Seq::empty();
        let mut g = f;
        let mut i = first;
        while layout.fields[i].field_type != TagFieldType::Terminator
            invariant
                g == f,
                layout.wf(),
                0 <= s < layout.struct_layouts@.len(),
                first == layout.first_field(s),
                first <= i <= t < layout.fields@.len(),
                layout.fields@[t].field_type == TagFieldType::Terminator,
                layout.no_terminator_between(first as int, i as int),
                layout == self.layout,
                self.layout == old(self).layout,
                self.raw_start == old(self).raw_start,
                s == old(self).struct_data.struct_index,
                want == layout.visible_fields(s),
                want == done + layout.visible_run_from(i as int),
                forall|k: int|
                    0 <= k < done.len() ==> #[trigger] handed_field(f, *layout, done[k], old(self).raw_start as int),
                forall|h: TagFieldMut<'_>| call_requires(g, (h,)),
                *final(self.struct_data) == *final(old(self).struct_data),
                *final(self.block_raw) == *final(old(self).block_raw),
            decreases t - i,
        {
            if !layout.fields[i].field_type.is_hidden() {
                let h = TagFieldMut {
                    layout,
                    struct_data: &mut *self.struct_data,
                    block_raw: &mut *self.block_raw,
                    raw_start: self.raw_start,
                    field_index: i,
                };
                let ghost gh = h;
                g(h);
                proof {
                    assert(call_ensures(f, (gh,), ()));
                    assert(handed_field(f, *layout, i as int, old(self).raw_start as int));
                    let prev = done;
                    done = done.push(i as int);
                    assert(want == done + layout.visible_run_from(i + 1));
                    assert forall|k: int| 0 <= k < done.len() implies #[trigger] handed_field(
                        f,
                        *layout,
                        done[k],
                        old(self).raw_start as int,
                    ) by {
                        if k < prev.len() {
                            assert(done[k] == prev[k]);
                        }
                    }
                }
            }
            i = i + 1;
        }
        proof {
            assert(done + Seq::<int>::empty() =~= done);
            assert(forall|k: int| 0 <= k < want.len() ==> want[k] == done[k]);
        }
    }
}

/// `buf` with the `size`-byte regions at `a` and `b` exchanged.
pub open spec fn swap_regions(buf: Seq<u8>, a: int, b: int, size: int) -> Seq<u8> {
    Seq::new(
        buf.len(),
        |k: int|
            if a <= k < a + size {
                buf[b + (k - a)]
            } else if b <= k < b + size {
                buf[a + (k - b)]
            } else {
                buf[k]
            },
    )
}

/// `s` with the entries at `i` and `j` exchanged, the form in which
/// [`TagBlockMut::swap`] and [`TagArrayMut::swap`] state their effect on
/// elements and records.
pub open spec fn swapped<A>(s: Seq<A>, i: int, j: int) -> Seq<A> {
    s.update(i, s[j]).update(j, s[i])
}

/// Swapping the same two entries twice gives back the sequence: a second
/// `swap(i, j)` restores the block's (or array's) elements and records.
pub proof fn lemma_swap_twice_restores<A>(s: Seq<A>, i: int, j: int)
    requires
        0 <= i < s.len(),
        0 <= j < s.len(),
    ensures
        swapped(swapped(s, i, j), i, j) == s,
{
    assert(swapped(swapped(s, i, j), i, j) =~= s);
}

/// Exchanging the same two disjoint byte regions twice gives back the
/// buffer: a second array `swap(i, j)` restores its bytes.
pub proof fn lemma_swap_regions_twice_restores(buf: Seq<u8>, a: int, b: int, size: int)
    requires
        0 <= size,
        0 <= a,
        0 <= b,
        a + size <= buf.len(),
        b + size <= buf.len(),
        a + size <= b || b + size <= a,
    ensures
        swap_regions(swap_regions(buf, a, b, size), a, b, size) == buf,
{
    let once = swap_regions(buf, a, b, size);
    assert(swap_regions(once, a, b, size) =~= buf);
}

impl<'a> TagArrayMut<'a> {
    /// Swap elements `i` and `j` (trees and bytes). Out-of-range indices
    /// give `OutOfRange` and change nothing.
    pub fn swap(&mut self, i: usize, j: usize) -> (r: Result<(), TagIndexError>)
        requires
            old(self).inv(),
        ensures
            final(self).inv(),
            (i >= old(self).elements@.len() || j >= old(self).elements@.len()) <==> r is Err,
            r matches Err(e) ==> e == (TagIndexError::OutOfRange {
                index: if i >= old(self).elements@.len() { i } else { j },
                len: old(self).elements@.len() as usize,
            }),
            r is Err ==> final(self).elements@ == old(self).elements@ && final(self).block_raw@ == old(self).block_raw@,
            r is Ok ==> final(self).elements@ == old(self).elements@.update(i as int, old(self).elements@[j as int]).update(
                j as int,
                old(self).elements@[i as int],
            ) && final(self).block_raw@ == if i == j {
                old(self).block_raw@
            } else {
                swap_regions(
                    old(self).block_raw@,
                    old(self).raw_start + i * old(self).spec_element_size(),
                    old(self).raw_start + j * old(self).spec_element_size(),
                    old(self).spec_element_size(),
                )
            },
            final(self).layout == old(self).layout,
            final(self).raw_start == old(self).raw_start,
            final(self).array_layout_index == old(self).array_layout_index,
            *final(final(self).elements) == *final(old(self).elements),
            *final(final(self).block_raw) == *final(old(self).block_raw),
    {
        let len = self.elements.len();
        if i >= len {
            return Err(TagIndexError::OutOfRange { index: i, len });
        }
        if j >= len {
            return Err(TagIndexError::OutOfRange { index: j, len });
        }
        if i == j {
            assert(self.elements@.update(i as int, self.elements@[j as int]) =~= self.elements@);
            return Ok(());
        }
        let layout = self.layout;
        let size = layout.struct_layouts[layout.array_layouts[self.array_layout_index as usize].struct_index as usize].size;
        let total = self.block_raw.len();
        proof {
            lemma_record_bounds(size as int, i as int, len as int);
            lemma_record_bounds(size as int, j as int, len as int);
        }
        let a = self.raw_start + i * size;
        let b = self.raw_start + j * size;
        proof {
            if i < j {
                assert((i as int) * (size as int) + size <= (j as int) * (size as int)) by (nonlinear_arith)
                    requires
                        i < j,
                        size >= 0,
                ;
            } else {
                assert((j as int) * (size as int) + size <= (i as int) * (size as int)) by (nonlinear_arith)
                    requires
                        j < i,
                        size >= 0,
                ;
            }
        }
        let ghost before = self.block_raw@;
        let rec_a = vstd::slice::slice_to_vec(vstd::slice::slice_subrange(self.block_raw.as_slice(), a, a + size));
        let rec_b = vstd::slice::slice_to_vec(vstd::slice::slice_subrange(self.block_raw.as_slice(), b, b + size));
        let mut k: usize = 0;
        while k < size
            invariant
                k <= size,
                total == before.len(),
                a + size <= before.len(),
                b + size <= before.len(),
                a + size <= b || b + size <= a,
                rec_a@ == before.subrange(a as int, a + size),
                rec_b@ == before.subrange(b as int, b + size),
                self.block_raw@.len() == before.len(),
                forall|q: int|
                    0 <= q < before.len() ==> #[trigger] self.block_raw@[q] == if a <= q < a + k {
                        before[b + (q - a)]
                    } else if b <= q < b + k {
                        before[a + (q - b)]
                    } else {
                        before[q]
                    },
                *final(self.block_raw) == *final(old(self).block_raw),
                *self.elements == *old(self).elements,
                self.layout == old(self).layout,
                self.raw_start == old(self).raw_start,
                self.array_layout_index == old(self).array_layout_index,
                *final(self.elements) == *final(old(self).elements),
            decreases size - k,
        {
            self.block_raw.set(a + k, rec_b[k]);
            self.block_raw.set(b + k, rec_a[k]);
            k = k + 1;
        }
        assert(self.block_raw@ =~= swap_regions(before, a as int, b as int, size as int));
        let (lo, hi) = if i < j { (i, j) } else { (j, i) };
        let e_hi = self.elements.remove(hi);
        let e_lo = self.elements.remove(lo);
        self.elements.insert(lo, e_hi);
        self.elements.insert(hi, e_lo);
        assert(self.elements@ =~= old(self).elements@.update(i as int, old(self).elements@[j as int]).update(
            j as int,
            old(self).elements@[i as int],
        ));
        assert forall|q: int| 0 <= q < self.elements@.len() implies {
            &&& (#[trigger] self.elements@[q]).struct_index == self.layout.array_layouts@[self.array_layout_index as int].struct_index
            &&& struct_ok(*self.layout, self.elements@[q])
        } by {
            if q == i {
                assert(self.elements@[q] == old(self).elements@[j as int]);
            } else if q == j {
                assert(self.elements@[q] == old(self).elements@[i as int]);
            } else {
                assert(self.elements@[q] == old(self).elements@[q]);
            }
        }
        Ok(())
    }

    /// Call `f` with a mutable handle on each element, in order: element
    /// `k`, as it stands before its call, at byte `raw_start + k * size` of
    /// the enclosing buffer. The count is unchanged; what the elements
    /// become is up to `f`.
    pub fn for_each_element_mut<F>(&mut self, f: F)
        where F: FnMut(TagStructMut<'_>),
        requires
            old(self).inv(),
            forall|h: TagStructMut<'_>| call_requires(f, (h,)),
        ensures
            final(self).elements@.len() == old(self).elements@.len(),
            final(self).layout == old(self).layout,
            *final(final(self).elements) == *final(old(self).elements),
            *final(final(self).block_raw) == *final(old(self).block_raw),
            forall|k: int|
                0 <= k < old(self).elements@.len() ==> #[trigger] handed_struct(
                    f,
                    *old(self).layout,
                    old(self).elements@[k],
                    old(self).raw_start as int,
                    k,
                    old(self).spec_element_size(),
                ),
    {
        let layout = self.layout;
        let size = layout.struct_layouts[layout.array_layouts[self.array_layout_index as usize].struct_index as usize].size;
        let count = self.elements.len();
        let total = self.block_raw.len();
        let base = self.raw_start;
        let ghost esize = old(self).spec_element_size();
        let mut g = f;
        let mut i: usize = 0;
        while i < count
            invariant
                g == f,
                i <= count,
                base + count * size <= usize::MAX,
                count == self.elements@.len(),
                count == old(self).elements@.len(),
                self.layout == old(self).layout,
                layout == self.layout,
                base == old(self).raw_start,
                size == esize,
                forall|h: TagStructMut<'_>| call_requires(g, (h,)),
                *final(self.elements) == *final(old(self).elements),
                *final(self.block_raw) == *final(old(self).block_raw),
                forall|k: int| i <= k < count ==> self.elements@[k] == old(self).elements@[k],
                forall|k: int|
                    0 <= k < i ==> #[trigger] handed_struct(
                        f,
                        *old(self).layout,
                        old(self).elements@[k],
                        old(self).raw_start as int,
                        k,
                        esize,
                    ),
            decreases count - i,
        {
            proof {
                lemma_record_bounds(size as int, i as int, count as int);
            }
            let start = base + i * size;
            let struct_data = &mut self.elements[i];
            let block_raw = &mut *self.block_raw;
            let h = TagStructMut { layout, struct_data, block_raw, raw_start: start };
            let ghost gh = h;
            g(h);
            proof {
                assert(call_ensures(f, (gh,), ()));
                assert(handed_struct(f, *old(self).layout, old(self).elements@[i as int], base as int, i as int, esize));
            }
            i = i + 1;
        }
    }
}

} // verus!
