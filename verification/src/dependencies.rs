//! The tag references a tag's data holds, in tree order: the source of
//! its dependency list.
use vstd::prelude::*;
use vstd::utf8::{decode_utf8, valid_utf8};

use crate::api::{TagField, TagStruct};
use crate::bytes::{le_u32, read_u32_le};
use crate::data::{
    block_ok, block_struct, default_entries_from, default_struct_of, entry_from, entry_of, find_entry, has_sub_chunk, is_container,
    TagBlockData, TagStructData, TagSubChunkContent, TagSubChunkEntry,
};
use crate::fields::{payload_of_reference, TagReferenceData};
use crate::fields::TagFieldType;
use crate::file::{TagFile, TagStream};
use crate::layout::TagLayout;

verus! {

/// A collected reference: the group tag and the path.
pub type Reference = (u32, Seq<char>);

/// `a` then `b`, when both are readable.
pub open spec fn opt_cat(a: Option<Seq<Reference>>, b: Option<Seq<Reference>>) -> Option<Seq<Reference>> {
    match (a, b) {
        (Some(x), Some(y)) => Some(x + y),
        _ => None,
    }
}

/// The payload of field `fi` of struct `d`: its first sub-chunk's.
pub open spec fn payload_of(d: TagStructData, fi: int) -> Option<TagSubChunkContent> {
    match entry_of(d.sub_chunks@, fi) {
        Some(j) => if 0 <= j < d.sub_chunks@.len() {
            Some(d.sub_chunks@[j].content)
        } else {
            None
        },
        None => None,
    }
}

/// The references of struct `d`, in the order of its visible fields;
/// `None` when reading one of its leaf values would fail: a string id,
/// data or tag-reference field without its payload, or a reference path
/// that is not UTF-8.
pub open spec fn struct_refs(layout: TagLayout, d: TagStructData) -> Option<Seq<Reference>>
    decreases d, 2nat, 0nat,
{
    let fis = layout.visible_fields(d.struct_index as int);
    field_list_refs(layout, d, fis, fis.len())
}

/// The references of the first `n` fields `fis` of struct `d`.
pub open spec fn field_list_refs(layout: TagLayout, d: TagStructData, fis: Seq<int>, n: nat) -> Option<Seq<Reference>>
    decreases d, 1nat, n,
{
    if n == 0 {
        Some(Seq::empty())
    } else {
        opt_cat(field_list_refs(layout, d, fis, (n - 1) as nat), field_refs(layout, d, fis[n - 1]))
    }
}

/// The references of field `fi` of struct `d`: those of a nested
/// struct, of each element of a block or array, or the field's own
/// reference when it is a non-null tag reference.
pub open spec fn field_refs(layout: TagLayout, d: TagStructData, fi: int) -> Option<Seq<Reference>>
    decreases d, 0nat, 0nat,
{
    let t = layout.fields@[fi].field_type;
    match entry_of(d.sub_chunks@, fi) {
        Some(j) if 0 <= j < d.sub_chunks@.len() => match d.sub_chunks@[j].content {
            TagSubChunkContent::Struct(n) => if t == TagFieldType::Struct {
                struct_refs(layout, n)
            } else {
                leaf_refs(t, Some(d.sub_chunks@[j].content))
            },
            TagSubChunkContent::Block(b) => if t == TagFieldType::Block {
                elems_refs(layout, b.elements@, b.elements@.len())
            } else {
                leaf_refs(t, Some(d.sub_chunks@[j].content))
            },
            TagSubChunkContent::Array(els) => if t == TagFieldType::Array {
                elems_refs(layout, els@, els@.len())
            } else {
                leaf_refs(t, Some(d.sub_chunks@[j].content))
            },
            c => leaf_refs(t, Some(c)),
        },
        _ => leaf_refs(t, None),
    }
}

/// The references of the first `n` structs of `els`.
pub open spec fn elems_refs(layout: TagLayout, els: Seq<TagStructData>, n: nat) -> Option<Seq<Reference>>
    decreases els, 1nat, n,
{
    if n == 0 || n > els.len() {
        Some(Seq::empty())
    } else {
        opt_cat(elems_refs(layout, els, (n - 1) as nat), struct_refs(layout, els[n - 1]))
    }
}

/// What reading the value of a non-container field of type `t` with
/// payload `c` contributes.
pub open spec fn leaf_refs(t: TagFieldType, c: Option<TagSubChunkContent>) -> Option<Seq<Reference>> {
    match t {
        TagFieldType::StringId => if c matches Some(TagSubChunkContent::StringId(_)) {
            Some(Seq::empty())
        } else {
            None
        },
        TagFieldType::OldStringId => if c matches Some(TagSubChunkContent::OldStringId(_)) {
            Some(Seq::empty())
        } else {
            None
        },
        TagFieldType::Data => if c matches Some(TagSubChunkContent::Data(_)) {
            Some(Seq::empty())
        } else {
            None
        },
        TagFieldType::TagReference => match c {
            Some(TagSubChunkContent::TagReference(p)) => if p@.len() < 4 {
                Some(Seq::empty())
            } else if valid_utf8(p@.skip(4)) {
                Some(seq![(le_u32(p@, 0), decode_utf8(p@.skip(4)))])
            } else {
                None
            },
            _ => None,
        },
        _ => Some(Seq::empty()),
    }
}

/// The view of collected references.
pub open spec fn refs_view(v: Seq<(u32, String)>) -> Seq<Reference> {
    Seq::new(v.len(), |k: int| (v[k].0, v[k].1@))
}

proof fn lemma_field_list_prefix(layout: TagLayout, d: TagStructData, fis: Seq<int>, n: nat, k: nat)
    requires
        field_list_refs(layout, d, fis, n) is Some,
        k <= n,
    ensures
        field_list_refs(layout, d, fis, k) is Some,
        k < n ==> field_refs(layout, d, fis[k as int]) is Some,
    decreases n,
{
    if k < n {
        lemma_field_list_prefix(layout, d, fis, (n - 1) as nat, k);
    }
}

proof fn lemma_elems_prefix(layout: TagLayout, els: Seq<TagStructData>, n: nat, k: nat)
    requires
        elems_refs(layout, els, n) is Some,
        k <= n <= els.len(),
    ensures
        elems_refs(layout, els, k) is Some,
        k < n ==> struct_refs(layout, els[k as int]) is Some,
    decreases n,
{
    if k < n {
        lemma_elems_prefix(layout, els, (n - 1) as nat, k);
    }
}

/// Append the references of struct `st` ([`struct_refs`]).
fn collect_struct(st: &TagStruct, out: &mut Vec<(u32, String)>)
    requires
        struct_refs(st.spec_layout(), st.spec_data()) is Some,
    ensures
        refs_view(final(out)@) == refs_view(old(out)@) + struct_refs(st.spec_layout(), st.spec_data())->Some_0,
    decreases st.spec_data(), 2nat,
{
    let ghost layout = st.spec_layout();
    let ghost d = st.spec_data();
    let ghost fis = layout.visible_fields(d.struct_index as int);
    let fields = st.fields();
    proof {
        assert(st.spec_struct_index() == d.struct_index);
    }
    let mut k: usize = 0;
    while k < fields.len()
        invariant
            k <= fields@.len() == fis.len(),
            forall|i: int|
                0 <= i < fields@.len() ==> {
                    &&& (#[trigger] fields@[i]).spec_field_index() == fis[i]
                    &&& fields@[i].spec_data() == d
                    &&& fields@[i].spec_layout() == layout
                },
            st.spec_data() == d,
            st.spec_layout() == layout,
            field_list_refs(layout, d, fis, fis.len()) is Some,
            refs_view(out@) == refs_view(old(out)@) + field_list_refs(layout, d, fis, k as nat)->Some_0,
        decreases fields@.len() - k,
    {
        proof {
            lemma_field_list_prefix(layout, d, fis, fis.len(), k as nat);
            lemma_field_list_prefix(layout, d, fis, fis.len(), (k + 1) as nat);
        }
        collect_field(&fields[k], out);
        k = k + 1;
    }
}

/// Append the references of field `f` ([`field_refs`]).
fn collect_field(f: &TagField, out: &mut Vec<(u32, String)>)
    requires
        field_refs(f.spec_layout(), f.spec_data(), f.spec_field_index() as int) is Some,
    ensures
        refs_view(final(out)@) == refs_view(old(out)@) + field_refs(
            f.spec_layout(),
            f.spec_data(),
            f.spec_field_index() as int,
        )->Some_0,
    decreases f.spec_data(), 1nat,
{
    let ghost layout = f.spec_layout();
    let ghost d = f.spec_data();
    let ghost fi = f.spec_field_index() as int;
    proof {
        crate::data::lemma_entry_from_range(d.sub_chunks@, 0, fi);
    }
    if let Some(nested) = f.as_struct() {
        proof {
            let j = entry_of(d.sub_chunks@, fi)->0;
            assert(decreases_to!(d => d.sub_chunks));
            assert(decreases_to!(d.sub_chunks => d.sub_chunks@));
            assert(decreases_to!(d.sub_chunks@ => d.sub_chunks@[j]));
            assert(decreases_to!(d.sub_chunks@[j] => d.sub_chunks@[j].content));
            assert(decreases_to!(d.sub_chunks@[j].content => nested.spec_data()));
        }
        collect_struct(&nested, out);
        return;
    }
    if let Some(block) = f.as_block() {
        let elems = block.iter();
        let ghost els = block.spec_data().elements@;
        proof {
            let j = entry_of(d.sub_chunks@, fi)->0;
            let b = block.spec_data();
            assert(decreases_to!(d => d.sub_chunks));
            assert(decreases_to!(d.sub_chunks => d.sub_chunks@));
            assert(decreases_to!(d.sub_chunks@ => d.sub_chunks@[j]));
            assert(decreases_to!(d.sub_chunks@[j] => d.sub_chunks@[j].content));
            assert(decreases_to!(d.sub_chunks@[j].content => b));
            assert(decreases_to!(b => b.elements));
            assert(decreases_to!(b.elements => b.elements@));
            assert(forall|i: int| 0 <= i < els.len() ==> decreases_to!(d => #[trigger] els[i]));
        }
        let mut k: usize = 0;
        while k < elems.len()
            invariant
                f.spec_data() == d,
                forall|i: int| 0 <= i < els.len() ==> decreases_to!(d => #[trigger] els[i]),
                k <= elems@.len() == els.len(),
                forall|i: int|
                    0 <= i < elems@.len() ==> (#[trigger] elems@[i]).spec_data() == els[i] && elems@[i].spec_layout()
                        == layout,
                elems_refs(layout, els, els.len()) is Some,
                refs_view(out@) == refs_view(old(out)@) + elems_refs(layout, els, k as nat)->Some_0,
            decreases elems@.len() - k,
        {
            proof {
                lemma_elems_prefix(layout, els, els.len(), k as nat);
                lemma_elems_prefix(layout, els, els.len(), (k + 1) as nat);
            }
            collect_struct(&elems[k], out);
            k = k + 1;
        }
        return;
    }
    if let Some(arr) = f.as_array() {
        let elems = arr.iter();
        let ghost els = arr.spec_elements();
        proof {
            let j = entry_of(d.sub_chunks@, fi)->0;
            let v = arr.spec_elements_vec();
            assert(decreases_to!(d => d.sub_chunks));
            assert(decreases_to!(d.sub_chunks => d.sub_chunks@));
            assert(decreases_to!(d.sub_chunks@ => d.sub_chunks@[j]));
            assert(decreases_to!(d.sub_chunks@[j] => d.sub_chunks@[j].content));
            assert(decreases_to!(d.sub_chunks@[j].content => v));
            assert(decreases_to!(v => v@));
            assert(forall|i: int| 0 <= i < els.len() ==> decreases_to!(d => #[trigger] els[i]));
        }
        let mut k: usize = 0;
        while k < elems.len()
            invariant
                f.spec_data() == d,
                forall|i: int| 0 <= i < els.len() ==> decreases_to!(d => #[trigger] els[i]),
                k <= elems@.len() == els.len(),
                forall|i: int|
                    0 <= i < elems@.len() ==> (#[trigger] elems@[i]).spec_data() == els[i] && elems@[i].spec_layout()
                        == layout,
                elems_refs(layout, els, els.len()) is Some,
                refs_view(out@) == refs_view(old(out)@) + elems_refs(layout, els, k as nat)->Some_0,
            decreases elems@.len() - k,
        {
            proof {
                lemma_elems_prefix(layout, els, els.len(), k as nat);
                lemma_elems_prefix(layout, els, els.len(), (k + 1) as nat);
            }
            collect_struct(&elems[k], out);
            k = k + 1;
        }
        return;
    }
    if let Some(p) = f.reference_payload() {
        if p.len() >= 4 {
            let r = crate::fields::TagReferenceData::from_bytes(p);
            if let Some((g, path)) = r.group_tag_and_name {
                out.push((g, path));
            }
        }
    }
}

//================================================================================
// Filling a dependency block
//================================================================================

/// The packed group tag `impo` (import information), whose references
/// a dependency list leaves out.
pub open spec fn impo_tag() -> u32 {
    0x696D_706F
}

/// `refs` without the references to `impo` tags.
pub open spec fn kept_refs(refs: Seq<Reference>) -> Seq<Reference>
    decreases refs.len(),
{
    if refs.len() == 0 {
        Seq::empty()
    } else {
        kept_refs(refs.drop_last()) + if refs.last().0 != impo_tag() {
            seq![refs.last()]
        } else {
            Seq::empty()
        }
    }
}

/// The first field of struct `s` named `name`.
pub open spec fn struct_field_named(layout: TagLayout, s: int, name: Seq<char>) -> Option<int> {
    layout.named_from(layout.first_field(s), name)
}

proof fn lemma_entry_from_shift(es: Seq<TagSubChunkEntry>, k: int, fi: int)
    requires
        es.len() > 0,
        0 <= k,
    ensures
        entry_from(es, k + 1, fi) == match entry_from(es.drop_first(), k, fi) {
            Some(j) => Some(j + 1),
            None => None::<int>,
        },
    decreases es.len() - k,
{
    if k + 1 < es.len() && es[k + 1].field_index != Some(fi as u32) {
        lemma_entry_from_shift(es, k + 1, fi);
    }
}

/// In a default struct tree, each sub-chunk-bearing field has its
/// default payload, found by the first-entry lookup.
proof fn lemma_default_entry(layout: TagLayout, i: int, depth: nat, es: Seq<TagSubChunkEntry>, fi: int)
    requires
        layout.wf(),
        default_entries_from(layout, i, depth, es),
        0 <= i <= fi < layout.fields@.len(),
        forall|k: int| i <= k <= fi ==> (#[trigger] layout.fields@[k]).field_type != TagFieldType::Terminator,
        has_sub_chunk(layout.fields@[fi].field_type),
    ensures
        entry_from(es, 0, fi) matches Some(j) && 0 <= j < es.len() && es[j].field_index == Some(fi as u32),
    decreases fi - i,
{
    if has_sub_chunk(layout.fields@[i].field_type) {
        if i == fi {
        } else {
            assert(es[0].field_index != Some(fi as u32));
            lemma_default_entry(layout, i + 1, depth, es.drop_first(), fi);
            lemma_entry_from_shift(es, 0, fi);
        }
    } else {
        lemma_default_entry(layout, i + 1, depth, es, fi);
    }
}

/// Index of the first field of struct `s` named `name`.
fn find_field(layout: &TagLayout, s: usize, name: &str) -> (r: Option<usize>)
    requires
        layout.wf(),
        s < layout.struct_layouts@.len(),
    ensures
        r matches Some(fi) ==> struct_field_named(*layout, s as int, name@) == Some(fi as int)
            && layout.field_of_struct(s as int, fi as int),
        r is None ==> struct_field_named(*layout, s as int, name@) is None,
{
    let first = layout.struct_layouts[s].first_field_index as usize;
    let ghost t = crate::layout::lemma_run_has_end(layout, s as int, first as int);
    let mut i = first;
    while layout.fields[i].field_type != TagFieldType::Terminator
        invariant
            layout.wf(),
            s < layout.struct_layouts@.len(),
            first == layout.first_field(s as int),
            first <= i <= t < layout.fields@.len(),
            layout.fields@[t].field_type == TagFieldType::Terminator,
            layout.no_terminator_between(first as int, i as int),
            layout.named_from(first as int, name@) == layout.named_from(i as int, name@),
        decreases t - i,
    {
        if layout.string_is(layout.fields[i].name_offset, name) {
            return Some(i);
        }
        i = i + 1;
    }
    None
}

/// Why a dependency list could not be rebuilt.
#[derive(Debug, Clone, Copy, PartialEq, Eq, Structural)]
pub enum DependencyListError {
    /// The `want` stream has no root element.
    MissingRoot,
    /// Its root has no `dependencies` field.
    NoDependenciesField,
    /// `dependencies` is not a block, or its block is missing.
    DependenciesNotABlock,
    /// A `dependencies` element has no `dependency` field.
    NoDependencyField,
    /// The `dependency` field is a container and cannot hold a reference.
    ReferenceNotAssignable,
}

/// The entry of field `fi` of `e` holds the tag-reference payload `p`.
pub open spec fn holds_reference(e: TagStructData, fi: int, p: Seq<u8>) -> bool {
    payload_of(e, fi) matches Some(TagSubChunkContent::TagReference(v)) && v@ == p
}

/// Whether the element struct `es` can have its `dependency` field set
/// to a reference: it has none, it is a container (refused), or it has
/// a payload to replace.
pub open spec fn dependency_settable(layout: TagLayout, es: int) -> bool {
    match struct_field_named(layout, es, "dependency"@) {
        Some(dfi) => is_container(layout.fields@[dfi].field_type) || has_sub_chunk(layout.fields@[dfi].field_type),
        None => true,
    }
}

/// What refilling a dependency block with `refs` gives: `b` is the block
/// afterwards and `r` the outcome.
pub open spec fn filled(layout: TagLayout, b: TagBlockData, refs: Seq<Reference>, r: Result<(), DependencyListError>) -> bool {
    let es = block_struct(layout, b.block_index as int);
    if refs.len() == 0 {
        r is Ok && b.elements@.len() == 0
    } else {
        match struct_field_named(layout, es, "dependency"@) {
            None => r == Err::<(), DependencyListError>(DependencyListError::NoDependencyField) && b.elements@.len()
                == 1,
            Some(dfi) => if is_container(layout.fields@[dfi].field_type) {
                r == Err::<(), DependencyListError>(DependencyListError::ReferenceNotAssignable)
                    && b.elements@.len() == 1
            } else {
                &&& r is Ok
                &&& b.elements@.len() == refs.len()
                &&& forall|k: int|
                    0 <= k < refs.len() ==> holds_reference(
                        #[trigger] b.elements@[k],
                        dfi,
                        payload_of_reference(Some(refs[k])),
                    )
            },
        }
    }
}

/// Empty block `b`, then add one element per reference with its
/// `dependency` field set to that reference.
fn fill_dependencies(b: &mut TagBlockData, layout: &TagLayout, refs: &Vec<(u32, String)>) -> (r: Result<
    (),
    DependencyListError,
>)
    requires
        layout.wf(),
        block_ok(*layout, *old(b)),
        refs@.len() * crate::data::block_element_size(*layout, old(b).block_index as int) <= usize::MAX,
        dependency_settable(*layout, block_struct(*layout, old(b).block_index as int)),
    ensures
        block_ok(*layout, *final(b)),
        final(b).block_index == old(b).block_index,
        filled(*layout, *final(b), refs_view(refs@), r),
{
    b.clear();
    let ghost size = crate::data::block_element_size(*layout, b.block_index as int);
    assert(b.elements@.len() * size == 0);
    assert(block_ok(*layout, *b));
    let n = refs.len();
    if n == 0 {
        return Ok(());
    }
    let es = layout.block_layouts[b.block_index as usize].struct_index as usize;
    let dfi = match find_field(layout, es, "dependency") {
        Some(d) => d,
        None => {
            b.add_element(layout);
            return Err(DependencyListError::NoDependencyField);
        },
    };
    let t = layout.fields[dfi].field_type;
    if t == TagFieldType::Struct || t == TagFieldType::Block || t == TagFieldType::Array
        || t == TagFieldType::PageableResource {
        b.add_element(layout);
        return Err(DependencyListError::ReferenceNotAssignable);
    }
    let mut k: usize = 0;
    while k < n
        invariant
            layout.wf(),
            k <= n == refs@.len(),
            n * size <= usize::MAX,
            size == crate::data::block_element_size(*layout, b.block_index as int),
            es == block_struct(*layout, b.block_index as int),
            layout.field_of_struct(es as int, dfi as int),
            struct_field_named(*layout, es as int, "dependency"@) == Some(dfi as int),
            has_sub_chunk(layout.fields@[dfi as int].field_type),
            !is_container(layout.fields@[dfi as int].field_type),
            block_ok(*layout, *b),
            b.block_index == old(b).block_index,
            b.elements@.len() == k,
            forall|i: int|
                0 <= i < k ==> holds_reference(
                    #[trigger] b.elements@[i],
                    dfi as int,
                    payload_of_reference(Some(refs_view(refs@)[i])),
                ),
        decreases n - k,
    {
        assert(b.raw_data@.len() + size <= usize::MAX) by (nonlinear_arith)
            requires
                b.raw_data@.len() == k * size,
                k < n,
                n * size <= usize::MAX,
                size >= 0,
        ;
        let ghost before = b.elements@;
        let i = b.add_element(layout);
        let name = refs[k].1.clone();
        let reference = TagReferenceData { group_tag_and_name: Some((refs[k].0, name)) };
        let payload = reference.to_bytes();
        proof {
            let e = b.elements@[i as int];
            assert(e == b.elements@.last());
            assert(layout.struct_layouts@.len() > 0);
            lemma_default_entry(
                *layout,
                layout.first_field(es as int),
                (layout.struct_layouts@.len() - 1) as nat,
                e.sub_chunks@,
                dfi as int,
            );
        }
        let j = find_entry(&b.elements[i].sub_chunks, dfi).unwrap();
        let ghost old_subs = b.elements@[i as int].sub_chunks@;
        let entry = TagSubChunkEntry { field_index: Some(dfi as u32), content: TagSubChunkContent::TagReference(payload) };
        let e = &mut b.elements[i];
        e.sub_chunks.set(j, entry);
        proof {
            crate::assign::lemma_entry_from_update(old_subs, 0, j as int, b.elements@[i as int].sub_chunks@[j as int], dfi as int);
            assert(forall|x: int| 0 <= x < k ==> b.elements@[x] == before[x]);
            assert(entry_of(b.elements@[i as int].sub_chunks@, dfi as int) == Some(j as int));
            assert(reference@ == Some((refs@[k as int].0, refs@[k as int].1@)));
            assert(refs_view(refs@)[k as int] == (refs@[k as int].0, refs@[k as int].1@));
            assert(holds_reference(b.elements@[i as int], dfi as int, payload_of_reference(Some(refs_view(refs@)[k as int]))));
            assert forall|x: int| 0 <= x < k + 1 implies holds_reference(
                #[trigger] b.elements@[x],
                dfi as int,
                payload_of_reference(Some(refs_view(refs@)[x])),
            ) by {
                if x < k {
                    assert(b.elements@[x] == before[x]);
                }
            }
            assert forall|x: int| 0 <= x < b.elements@[i as int].sub_chunks@.len() implies crate::data::entry_ok(
                *layout,
                es as int,
                #[trigger] b.elements@[i as int].sub_chunks@[x],
            ) by {
                if x != j {
                    assert(b.elements@[i as int].sub_chunks@[x] == old_subs[x]);
                }
            }
        }
        k = k + 1;
    }
    Ok(())
}

/// The references of `refs` kept in a dependency list ([`kept_refs`]).
fn keep_non_impo(refs: &Vec<(u32, String)>) -> (r: Vec<(u32, String)>)
    ensures
        refs_view(r@) == kept_refs(refs_view(refs@)),
{
    let mut out: Vec<(u32, String)> = Vec::new();
    let mut k: usize = 0;
    while k < refs.len()
        invariant
            k <= refs@.len(),
            refs_view(out@) == kept_refs(refs_view(refs@).take(k as int)),
        decreases refs@.len() - k,
    {
        let ghost before = out@;
        assert(refs_view(refs@).take(k + 1).drop_last() =~= refs_view(refs@).take(k as int));
        if refs[k].0 != 0x696D_706Fu32 {
            let name = refs[k].1.clone();
            out.push((refs[k].0, name));
            assert(refs_view(out@) =~= refs_view(before) + seq![refs_view(refs@)[k as int]]);
        } else {
            assert(refs_view(out@) =~= refs_view(before) + Seq::<Reference>::empty());
        }
        k = k + 1;
    }
    assert(refs_view(refs@).take(k as int) =~= refs_view(refs@));
    out
}

/// Whether rebuilding can proceed without failing outright on the
/// `want` layout `wl` with root struct `rs` and `n` references: the
/// `dependency` field of the `dependencies` elements can be set (or is
/// refused), and `n` elements fit in memory.
pub open spec fn dependencies_ready(wl: TagLayout, rs: int, n: nat) -> bool {
    match struct_field_named(wl, rs, "dependencies"@) {
        Some(rfi) => wl.fields@[rfi].field_type == TagFieldType::Block ==> {
            let b = wl.fields@[rfi].definition as int;
            &&& dependency_settable(wl, block_struct(wl, b))
            &&& n * crate::data::block_element_size(wl, b) <= usize::MAX
        },
        None => true,
    }
}

/// `s` is the `want` stream `base` after refilling its `dependencies`
/// block with `refs`, `r` the outcome: refused when the stream has no
/// root element, the root no `dependencies` field, or that field no
/// block; otherwise only that block changes ([`filled`]).
pub open spec fn rebuilt_from(base: TagStream, s: TagStream, refs: Seq<Reference>, r: Result<(), DependencyListError>) -> bool {
    let wl = base.layout;
    if base.data.elements@.len() == 0 {
        r == Err::<(), DependencyListError>(DependencyListError::MissingRoot) && s == base
    } else {
        let root = base.data.elements@[0];
        match struct_field_named(wl, root.struct_index as int, "dependencies"@) {
            None => r == Err::<(), DependencyListError>(DependencyListError::NoDependenciesField) && s == base,
            Some(rfi) => if wl.fields@[rfi].field_type != TagFieldType::Block || !(payload_of(root, rfi) matches Some(
                TagSubChunkContent::Block(_),
            )) {
                r == Err::<(), DependencyListError>(DependencyListError::DependenciesNotABlock) && s == base
            } else {
                let j = entry_of(root.sub_chunks@, rfi)->0;
                let nroot = s.data.elements@[0];
                &&& s.layout == base.layout
                &&& s.data.block_index == base.data.block_index
                &&& s.data.flags == base.data.flags
                &&& s.data.raw_data == base.data.raw_data
                &&& s.data.elements@.len() == base.data.elements@.len()
                &&& forall|k: int| 1 <= k < s.data.elements@.len() ==> s.data.elements@[k] == base.data.elements@[k]
                &&& nroot.struct_index == root.struct_index
                &&& nroot.sub_chunks@.len() == root.sub_chunks@.len()
                &&& forall|x: int| 0 <= x < nroot.sub_chunks@.len() && x != j ==> nroot.sub_chunks@[x] == root.sub_chunks@[x]
                &&& nroot.sub_chunks@[j].field_index == root.sub_chunks@[j].field_index
                &&& nroot.sub_chunks@[j].content matches TagSubChunkContent::Block(nb) && nb.block_index
                    == wl.fields@[rfi].definition && filled(wl, nb, refs, r)
            },
        }
    }
}

/// Refill the `dependencies` block of a `want` stream.
fn rebuild_stream(s: &mut TagStream, refs: &Vec<(u32, String)>) -> (r: Result<(), DependencyListError>)
    requires
        old(s).wf(),
        old(s).data.elements@.len() > 0 ==> dependencies_ready(
            old(s).layout,
            old(s).data.elements@[0].struct_index as int,
            refs@.len(),
        ),
    ensures
        final(s).wf(),
        rebuilt_from(*old(s), *final(s), refs_view(refs@), r),
{
    if s.data.elements.len() == 0 {
        return Err(DependencyListError::MissingRoot);
    }
    proof {
        assert(s.data.elements@[0].struct_index == block_struct(s.layout, s.data.block_index as int));
        assert(crate::data::struct_ok(s.layout, s.data.elements@[0]));
    }
    let rs = s.data.elements[0].struct_index as usize;
    let rfi = match find_field(&s.layout, rs, "dependencies") {
        Some(f) => f,
        None => {
            return Err(DependencyListError::NoDependenciesField);
        },
    };
    if s.layout.fields[rfi].field_type != TagFieldType::Block {
        return Err(DependencyListError::DependenciesNotABlock);
    }
    let j = match find_entry(&s.data.elements[0].sub_chunks, rfi) {
        Some(j) => j,
        None => {
            return Err(DependencyListError::DependenciesNotABlock);
        },
    };
    proof {
        crate::data::lemma_entry_from_range(s.data.elements@[0].sub_chunks@, 0, rfi as int);
    }
    match &s.data.elements[0].sub_chunks[j].content {
        TagSubChunkContent::Block(_) => {},
        _ => {
            return Err(DependencyListError::DependenciesNotABlock);
        },
    }
    let ghost root = s.data.elements@[0];
    let ghost old_s = *s;
    proof {
        crate::data::lemma_entry_ok(s.layout, root, j as int);
    }
    let layout = &s.layout;
    let data = &mut s.data;
    let root_data = &mut data.elements[0];
    let entry = &mut root_data.sub_chunks[j];
    let r = match &mut entry.content {
        TagSubChunkContent::Block(b) => fill_dependencies(b, layout, refs),
        _ => Err(DependencyListError::DependenciesNotABlock),
    };
    proof {
        let nroot = s.data.elements@[0];
        assert forall|x: int| 0 <= x < nroot.sub_chunks@.len() implies crate::data::entry_ok(
            s.layout,
            nroot.struct_index as int,
            #[trigger] nroot.sub_chunks@[x],
        ) by {
            if x != j {
                assert(nroot.sub_chunks@[x] == root.sub_chunks@[x]);
                crate::data::lemma_entry_ok(s.layout, root, x);
            }
        }
        assert(crate::data::struct_ok(s.layout, nroot));
        assert forall|k: int| 0 <= k < s.data.elements@.len() implies {
            &&& (#[trigger] s.data.elements@[k]).struct_index == block_struct(s.layout, s.data.block_index as int)
            &&& crate::data::struct_ok(s.layout, s.data.elements@[k])
        } by {
            if k > 0 {
                assert(s.data.elements@[k] == old_s.data.elements@[k]);
            }
        }
    }
    r
}

impl TagFile {
    /// Rebuild the `want` (dependency list) stream: collect every non-null
    /// tag reference of the tag's data in tree order ([`struct_refs`]),
    /// drop those to `impo` tags, attach a `want` stream of `layout` when
    /// the tag has none, and refill its root's `dependencies` block with
    /// one element per reference, its `dependency` field set to it.
    pub fn rebuild_dependency_list(&mut self, layout: TagLayout) -> (r: Result<(), DependencyListError>)
        requires
            old(self).wf(),
            layout.wf(),
            old(self).tag_stream.data.elements@.len() > 0,
            struct_refs(old(self).tag_stream.layout, old(self).tag_stream.data.elements@[0]) is Some,
            ({
                let n = kept_refs(struct_refs(old(self).tag_stream.layout, old(self).tag_stream.data.elements@[0])->Some_0).len();
                match old(self).dependency_list_stream {
                    Some(s) => s.data.elements@.len() > 0 ==> dependencies_ready(
                        s.layout,
                        s.data.elements@[0].struct_index as int,
                        n,
                    ),
                    None => dependencies_ready(
                        layout,
                        block_struct(layout, layout.header.tag_group_block_index as int),
                        n,
                    ),
                }
            }),
        ensures
            final(self).wf(),
            final(self).header == old(self).header,
            final(self).tag_stream == old(self).tag_stream,
            final(self).import_info_stream == old(self).import_info_stream,
            final(self).asset_depot_storage_stream == old(self).asset_depot_storage_stream,
            ({
                let refs = kept_refs(struct_refs(old(self).tag_stream.layout, old(self).tag_stream.data.elements@[0])->Some_0);
                final(self).dependency_list_stream matches Some(s) && match old(self).dependency_list_stream {
                    Some(base) => rebuilt_from(base, s, refs, r),
                    None => exists|base: TagStream|
                        {
                            &&& base.layout == layout
                            &&& base.wf()
                            &&& base.data.elements@.len() == 1
                            &&& base.data.block_index == layout.header.tag_group_block_index
                            &&& rebuilt_from(base, s, refs, r)
                        },
                }
            }),
    {
        let mut all: Vec<(u32, String)> = Vec::new();
        collect_struct(&self.root(), &mut all);
        let refs = keep_non_impo(&all);
        if self.dependency_list_stream.is_none() {
            self.dependency_list_stream = Some(TagStream::new_default(layout));
        }
        let ghost base = self.dependency_list_stream->0;
        proof {
            if old(self).dependency_list_stream is None {
                assert(base.data.elements@[0].struct_index == block_struct(layout, layout.header.tag_group_block_index as int));
            }
        }
        match &mut self.dependency_list_stream {
            Some(s) => rebuild_stream(s, &refs),
            None => Err(DependencyListError::MissingRoot),
        }
    }
}

} // verus!
