//! Field paths: `/`-separated segments, each a field name optionally
//! followed by `[N]`. A struct field is stepped into as it is; a block
//! or array field needs the `[N]` of the element to step into.
use vstd::prelude::*;
use vstd::string::StringSliceAdditionalSpecFns;

use crate::api::{TagField, TagStruct};
use crate::assign::lemma_entry_from_update;
use crate::data::{
    block_element_size, block_struct, entry_ok, entry_of, find_entry, lemma_entry_from_range, lemma_record_bounds, record,
    TagStructData,
    TagSubChunkContent, TagSubChunkEntry,
};
use crate::editing::{TagFieldMut, TagStructMut};
use crate::fields::TagFieldType;
use crate::layout::TagLayout;

verus! {

//================================================================================
// Path syntax
//================================================================================

/// Index of the first `/` at or after `k` (the length when there is
/// none).
pub open spec fn next_slash(p: Seq<u8>, k: int) -> int
    decreases p.len() - k,
{
    if k < 0 || k >= p.len() {
        p.len() as int
    } else if p[k] == 0x2Fu8 {
        k
    } else {
        next_slash(p, k + 1)
    }
}

proof fn lemma_next_slash(p: Seq<u8>, k: int)
    requires
        0 <= k <= p.len(),
    ensures
        k <= next_slash(p, k) <= p.len(),
        next_slash(p, k) < p.len() ==> p[next_slash(p, k)] == 0x2Fu8,
        forall|j: int| k <= j < next_slash(p, k) ==> p[j] != 0x2Fu8,
    decreases p.len() - k,
{
    if k < p.len() && p[k] != 0x2Fu8 {
        lemma_next_slash(p, k + 1);
    }
}

/// The segments of `p` from byte `k` on, split at `/`.
pub open spec fn segments_from(p: Seq<u8>, k: int) -> Seq<Seq<u8>>
    decreases p.len() - k,
{
    if k < 0 || k > p.len() {
        Seq::empty()
    } else {
        let e = next_slash(p, k);
        if e >= p.len() || e < k {
            seq![p.subrange(k, p.len() as int)]
        } else {
            seq![p.subrange(k, e)] + segments_from(p, e + 1)
        }
    }
}

/// The segments of a path.
pub open spec fn path_segments(p: Seq<u8>) -> Seq<Seq<u8>> {
    segments_from(p, 0)
}

/// Value of a non-empty run of ASCII digits, if it fits in `u64`.
pub open spec fn decimal_value(d: Seq<u8>) -> Option<u64>
    decreases d.len(),
{
    if d.len() == 0 {
        None
    } else {
        let last = d.last();
        if last < 0x30u8 || last > 0x39u8 {
            None
        } else {
            let digit = (last - 0x30u8) as int;
            if d.len() == 1 {
                Some(digit as u64)
            } else {
                match decimal_value(d.drop_last()) {
                    Some(v) => if 10 * (v as int) + digit <= u64::MAX {
                        Some((10 * (v as int) + digit) as u64)
                    } else {
                        None
                    },
                    None => None,
                }
            }
        }
    }
}

/// Index of the first `[` in `s`, if any.
pub open spec fn open_bracket(s: Seq<u8>, k: int) -> Option<int>
    decreases s.len() - k,
{
    if k < 0 || k >= s.len() {
        None
    } else if s[k] == 0x5Bu8 {
        Some(k)
    } else {
        open_bracket(s, k + 1)
    }
}

/// A segment as `(name, index)`: `name[N]` gives `N`, a plain name gives
/// no index; `None` for a `[` without a closing `]` at the end or
/// without a decimal index between them.
pub open spec fn parse_segment(s: Seq<u8>) -> Option<(Seq<u8>, Option<u64>)> {
    match open_bracket(s, 0) {
        None => Some((s, None)),
        Some(b) => if s.len() >= b + 2 && s.last() == 0x5Du8 {
            match decimal_value(s.subrange(b + 1, s.len() - 1)) {
                Some(v) => Some((s.subrange(0, b), Some(v))),
                None => None,
            }
        } else {
            None
        },
    }
}

//================================================================================
// Resolution over the data tree
//================================================================================

/// Step from struct instance `(d, raw)` into its field `fi`: a struct
/// field without an index, or element `idx` of a block or array field.
pub open spec fn step_into(layout: TagLayout, d: TagStructData, raw: Seq<u8>, fi: int, idx: Option<u64>) -> Option<
    (TagStructData, Seq<u8>),
> {
    let f = layout.fields@[fi];
    match entry_of(d.sub_chunks@, fi) {
        None => None,
        Some(j) => match (f.field_type, idx, d.sub_chunks@[j].content) {
            (TagFieldType::Struct, None, TagSubChunkContent::Struct(n)) => Some(
                (n, raw.subrange(f.offset as int, f.offset + layout.struct_layouts@[n.struct_index as int].size)),
            ),
            (TagFieldType::Block, Some(k), TagSubChunkContent::Block(b)) => if k < b.elements@.len() {
                Some(
                    (
                        b.elements@[k as int],
                        record(b.raw_data@, block_element_size(layout, b.block_index as int), k as int),
                    ),
                )
            } else {
                None
            },
            (TagFieldType::Array, Some(k), TagSubChunkContent::Array(els)) => if k < els@.len() {
                Some(
                    (
                        els@[k as int],
                        record(
                            raw.subrange(
                                f.offset as int,
                                f.offset + els@.len() * layout.array_element_size(f.definition as int),
                            ),
                            layout.array_element_size(f.definition as int),
                            k as int,
                        ),
                    ),
                )
            } else {
                None
            },
            _ => None,
        },
    }
}

/// The struct reached from `(d, raw)` by stepping through `segs`.
pub open spec fn walk(layout: TagLayout, d: TagStructData, raw: Seq<u8>, segs: Seq<Seq<u8>>) -> Option<
    (TagStructData, Seq<u8>),
>
    decreases segs.len(),
{
    if segs.len() == 0 {
        Some((d, raw))
    } else {
        match parse_segment(segs[0]) {
            None => None,
            Some((name, idx)) => match layout.named_bytes_from(
                layout.first_field(d.struct_index as int),
                name,
            ) {
                None => None,
                Some(fi) => match step_into(layout, d, raw, fi, idx) {
                    None => None,
                    Some((d2, raw2)) => walk(layout, d2, raw2, segs.drop_first()),
                },
            },
        }
    }
}

/// The field reached by a path: every segment but the last is stepped
/// into, and the last names a field (without an index) of the struct so
/// reached.
pub open spec fn lookup(layout: TagLayout, d: TagStructData, raw: Seq<u8>, segs: Seq<Seq<u8>>) -> Option<
    (TagStructData, Seq<u8>, int),
> {
    if segs.len() == 0 {
        None
    } else {
        match walk(layout, d, raw, segs.drop_last()) {
            None => None,
            Some((d2, raw2)) => match parse_segment(segs.last()) {
                Some((name, None)) => match layout.named_bytes_from(
                    layout.first_field(d2.struct_index as int),
                    name,
                ) {
                    Some(fi) => Some((d2, raw2, fi)),
                    None => None,
                },
                _ => None,
            },
        }
    }
}

//================================================================================
// Resolution through mutable handles
//================================================================================

/// The buffer that holds the struct segment `seg` steps into from `d`,
/// whose own buffer is `buf`: a block element lives in its block's bytes,
/// a nested struct or an array element in its parent's.
pub open spec fn child_buffer(layout: TagLayout, d: TagStructData, buf: Seq<u8>, seg: Seq<u8>) -> Seq<u8> {
    match parse_segment(seg) {
        Some((name, _)) => match layout.named_bytes_from(layout.first_field(d.struct_index as int), name) {
            Some(fi) => match entry_of(d.sub_chunks@, fi) {
                Some(j) => match d.sub_chunks@[j].content {
                    TagSubChunkContent::Block(b) => b.raw_data@,
                    _ => buf,
                },
                None => buf,
            },
            None => buf,
        },
        None => buf,
    }
}

/// The struct that segment `seg` steps into from `d`, read in `fd`, the
/// same struct after an edit, with the buffer that holds it there (`fbuf`
/// being `fd`'s own).
pub open spec fn child_after(
    layout: TagLayout,
    d: TagStructData,
    seg: Seq<u8>,
    fd: TagStructData,
    fbuf: Seq<u8>,
) -> (TagStructData, Seq<u8>) {
    match parse_segment(seg) {
        Some((name, idx)) => match layout.named_bytes_from(layout.first_field(d.struct_index as int), name) {
            Some(fi) => match entry_of(d.sub_chunks@, fi) {
                Some(j) => match (idx, fd.sub_chunks@[j].content) {
                    (None, TagSubChunkContent::Struct(n)) => (n, fbuf),
                    (Some(k), TagSubChunkContent::Block(b)) => (b.elements@[k as int], b.raw_data@),
                    (Some(k), TagSubChunkContent::Array(els)) => (els@[k as int], fbuf),
                    _ => (fd, fbuf),
                },
                None => (fd, fbuf),
            },
            None => (fd, fbuf),
        },
        None => (fd, fbuf),
    }
}

/// `(fd, fbuf)` is the struct `d` with buffer `buf` after the struct that
/// segment `seg` steps into became `(cd, cbuf)`: only the sub-chunk that
/// holds it changed, and only in that struct (and, for a block element,
/// the block's bytes); a nested struct or an array element shares its
/// parent's buffer, and a block element leaves its parent's buffer as it
/// was.
pub open spec fn put_back(
    layout: TagLayout,
    d: TagStructData,
    buf: Seq<u8>,
    seg: Seq<u8>,
    cd: TagStructData,
    cbuf: Seq<u8>,
    fd: TagStructData,
    fbuf: Seq<u8>,
) -> bool {
    match parse_segment(seg) {
        None => false,
        Some((name, idx)) => match layout.named_bytes_from(layout.first_field(d.struct_index as int), name) {
            None => false,
            Some(fi) => match entry_of(d.sub_chunks@, fi) {
                None => false,
                Some(j) => {
                    &&& fd.struct_index == d.struct_index
                    &&& fd.sub_chunks@.len() == d.sub_chunks@.len()
                    &&& forall|i: int|
                        0 <= i < d.sub_chunks@.len() && i != j ==> #[trigger] fd.sub_chunks@[i] == d.sub_chunks@[i]
                    &&& fd.sub_chunks@[j].field_index == d.sub_chunks@[j].field_index
                    &&& match (idx, d.sub_chunks@[j].content, fd.sub_chunks@[j].content) {
                        (None, TagSubChunkContent::Struct(_), TagSubChunkContent::Struct(n)) => n == cd && fbuf == cbuf,
                        (Some(k), TagSubChunkContent::Array(els), TagSubChunkContent::Array(fe)) => fe@ == els@.update(
                            k as int,
                            cd,
                        ) && fbuf == cbuf,
                        (Some(k), TagSubChunkContent::Block(b), TagSubChunkContent::Block(fb)) => {
                            &&& fb.elements@ == b.elements@.update(k as int, cd)
                            &&& fb.raw_data@ == cbuf
                            &&& fb.block_index == b.block_index
                            &&& fb.flags == b.flags
                            &&& fb.endian == b.endian
                            &&& fb.classic_block_header == b.classic_block_header
                            &&& fbuf == buf
                        },
                        _ => false,
                    }
                },
            },
        },
    }
}

/// `(fd, fbuf)` is the struct `d` (bytes `raw`, held in buffer `buf`)
/// after the struct that `segs` walks to became `(ld, lbuf)`, put back
/// level by level (see [`put_back`]).
pub open spec fn put_back_path(
    layout: TagLayout,
    d: TagStructData,
    raw: Seq<u8>,
    buf: Seq<u8>,
    segs: Seq<Seq<u8>>,
    ld: TagStructData,
    lbuf: Seq<u8>,
    fd: TagStructData,
    fbuf: Seq<u8>,
) -> bool
    decreases segs.len(),
{
    if segs.len() == 0 {
        fd == ld && fbuf == lbuf
    } else {
        let seg = segs[0];
        let after = child_after(layout, d, seg, fd, fbuf);
        match walk(layout, d, raw, seq![seg]) {
            None => false,
            Some((c, craw)) => {
                &&& put_back(layout, d, buf, seg, after.0, after.1, fd, fbuf)
                &&& put_back_path(
                    layout,
                    c,
                    craw,
                    child_buffer(layout, d, buf, seg),
                    segs.drop_first(),
                    ld,
                    lbuf,
                    after.0,
                    after.1,
                )
            },
        }
    }
}

/// What is edited through a path reads back through the same path: in
/// the tree after the edit, walking `segs` reaches the struct the edit
/// left at the end of the path, whatever the bytes.
pub proof fn lemma_put_back_reads_back(
    layout: TagLayout,
    d: TagStructData,
    raw: Seq<u8>,
    buf: Seq<u8>,
    segs: Seq<Seq<u8>>,
    ld: TagStructData,
    lbuf: Seq<u8>,
    fd: TagStructData,
    fbuf: Seq<u8>,
    fraw: Seq<u8>,
)
    requires
        put_back_path(layout, d, raw, buf, segs, ld, lbuf, fd, fbuf),
    ensures
        walk(layout, fd, fraw, segs) matches Some((e, _)) && e == ld,
    decreases segs.len(),
{
    if segs.len() > 0 {
        let seg = segs[0];
        let rest = segs.drop_first();
        let after = child_after(layout, d, seg, fd, fbuf);
        lemma_walk_single(layout, d, raw, seg);
        lemma_walk_single(layout, fd, fraw, seg);
        assert(segs =~= seq![seg] + rest);
        lemma_walk_cons(layout, fd, fraw, seg, rest);
        let (name, idx) = parse_segment(seg)->Some_0;
        let fi = layout.named_bytes_from(layout.first_field(d.struct_index as int), name)->Some_0;
        let j = entry_of(d.sub_chunks@, fi)->Some_0;
        lemma_entry_from_range(d.sub_chunks@, 0, fi);
        lemma_entry_from_update(d.sub_chunks@, 0, j, fd.sub_chunks@[j], fi);
        assert(fd.sub_chunks@ =~= d.sub_chunks@.update(j, fd.sub_chunks@[j]));
        let c = walk(layout, d, raw, seq![seg])->Some_0;
        let fstep = walk(layout, fd, fraw, seq![seg]);
        assert(fstep matches Some((x, _)) && x == after.0);
        lemma_put_back_reads_back(
            layout,
            c.0,
            c.1,
            child_buffer(layout, d, buf, seg),
            rest,
            ld,
            lbuf,
            after.0,
            after.1,
            fstep->Some_0.1,
        );
    }
}

//================================================================================
// Executable resolution
//================================================================================

fn find_slash(p: &[u8], k: usize) -> (r: usize)
    requires
        k <= p@.len(),
    ensures
        r == next_slash(p@, k as int),
{
    let mut i = k;
    while i < p.len() && p[i] != 0x2F
        invariant
            k <= i <= p@.len(),
            next_slash(p@, k as int) == next_slash(p@, i as int),
        decreases p@.len() - i,
    {
        i = i + 1;
    }
    i
}

fn find_open_bracket(s: &[u8]) -> (r: Option<usize>)
    ensures
        r matches Some(b) ==> open_bracket(s@, 0) == Some(b as int),
        r is None ==> open_bracket(s@, 0) is None,
{
    let mut i: usize = 0;
    while i < s.len()
        invariant
            i <= s@.len(),
            open_bracket(s@, 0) == open_bracket(s@, i as int),
        decreases s@.len() - i,
    {
        if s[i] == 0x5B {
            return Some(i);
        }
        i = i + 1;
    }
    None
}

fn parse_decimal(d: &[u8]) -> (r: Option<u64>)
    ensures
        r == decimal_value(d@),
{
    if d.len() == 0 {
        return None;
    }
    let mut v: u64 = 0;
    let mut i: usize = 0;
    while i < d.len()
        invariant
            0 < d@.len(),
            i <= d@.len(),
            i > 0 ==> decimal_value(d@.subrange(0, i as int)) == Some(v),
            i == 0 ==> v == 0,
        decreases d@.len() - i,
    {
        let c = d[i];
        let ghost prefix = d@.subrange(0, i + 1);
        assert(prefix.drop_last() =~= d@.subrange(0, i as int));
        assert(prefix.last() == c);
        if c < 0x30 || c > 0x39 {
            proof {
                lemma_decimal_prefix_none(d@, i + 1);
            }
            return None;
        }
        let digit = (c - 0x30) as u64;
        if i > 0 {
            if v > (u64::MAX - digit) / 10 {
                proof {
                    assert(10 * (v as int) + digit > u64::MAX) by (nonlinear_arith)
                        requires
                            v > (u64::MAX - digit) / 10,
                            digit <= 9,
                    ;
                    lemma_decimal_prefix_none(d@, i + 1);
                }
                return None;
            }
            proof {
                assert(10 * (v as int) + digit <= u64::MAX) by (nonlinear_arith)
                    requires
                        v <= (u64::MAX - digit) / 10,
                        digit <= 9,
                ;
            }
            v = 10 * v + digit;
        } else {
            v = digit;
        }
        i = i + 1;
    }
    assert(d@.subrange(0, d@.len() as int) =~= d@);
    Some(v)
}

/// A prefix with no decimal value leaves the whole run without one.
proof fn lemma_decimal_prefix_none(d: Seq<u8>, n: int)
    requires
        0 < n <= d.len(),
        decimal_value(d.subrange(0, n)) is None,
    ensures
        decimal_value(d) is None,
    decreases d.len() - n,
{
    if n < d.len() {
        let next = d.subrange(0, n + 1);
        assert(next.drop_last() =~= d.subrange(0, n));
        lemma_decimal_prefix_none(d, n + 1);
    } else {
        assert(d.subrange(0, n) =~= d);
    }
}

/// Parse one segment (see [`parse_segment`]); the name is returned as a
/// range of `s`.
fn split_segment(s: &[u8]) -> (r: Option<(usize, Option<u64>)>)
    ensures
        r matches Some((n, idx)) ==> n <= s@.len() && parse_segment(s@) == Some((s@.subrange(0, n as int), idx)),
        r is None ==> parse_segment(s@) is None,
{
    match find_open_bracket(s) {
        None => {
            assert(s@.subrange(0, s@.len() as int) =~= s@);
            Some((s.len(), None))
        },
        Some(b) => {
            if b < s.len() && s.len() - b >= 2 && s[s.len() - 1] == 0x5D {
                let digits = vstd::slice::slice_subrange(s, b + 1, s.len() - 1);
                match parse_decimal(digits) {
                    Some(v) => Some((b, Some(v))),
                    None => None,
                }
            } else {
                None
            }
        },
    }
}

/// The struct reached from `st` by stepping through every segment of
/// `path` (see [`walk`]).
pub fn descend_from_struct<'a>(st: TagStruct<'a>, path: &str) -> (r: Option<TagStruct<'a>>)
    ensures
        r matches Some(t) ==> walk(st.spec_layout(), st.spec_data(), st.spec_raw(), path_segments(path.spec_bytes()))
            == Some((t.spec_data(), t.spec_raw())) && t.spec_layout() == st.spec_layout(),
        r is None ==> walk(st.spec_layout(), st.spec_data(), st.spec_raw(), path_segments(path.spec_bytes())) is None,
{
    let p = path.as_bytes();
    match walk_from(st, p, 0, false) {
        Some((t, _)) => Some(t),
        None => None,
    }
}

/// Walk the segments of `p` from byte `k` on. With `keep_last`, the last
/// segment is left unwalked and its start returned.
fn walk_from<'a>(st: TagStruct<'a>, p: &[u8], k: usize, keep_last: bool) -> (r: Option<(TagStruct<'a>, usize)>)
    requires
        k <= p@.len(),
    ensures
        !keep_last ==> (r matches Some((t, _)) ==> walk(st.spec_layout(), st.spec_data(), st.spec_raw(), segments_from(p@, k as int))
            == Some((t.spec_data(), t.spec_raw())) && t.spec_layout() == st.spec_layout()),
        !keep_last ==> (r is None ==> walk(st.spec_layout(), st.spec_data(), st.spec_raw(), segments_from(p@, k as int)) is None),
        keep_last ==> (r matches Some((t, last)) ==> last <= p@.len() && walk(
            st.spec_layout(),
            st.spec_data(),
            st.spec_raw(),
            segments_from(p@, k as int).drop_last(),
        ) == Some((t.spec_data(), t.spec_raw())) && t.spec_layout() == st.spec_layout() && segments_from(p@, k as int).last()
            == p@.subrange(last as int, p@.len() as int) && segments_from(p@, k as int).len() > 0),
        keep_last ==> (r is None ==> walk(
            st.spec_layout(),
            st.spec_data(),
            st.spec_raw(),
            segments_from(p@, k as int).drop_last(),
        ) is None),
    decreases p@.len() - k,
{
    let total = p.len();
    let e = find_slash(p, k);
    proof {
        lemma_next_slash(p@, k as int);
    }
    let seg = vstd::slice::slice_subrange(p, k, e);
    let ghost segs = segments_from(p@, k as int);
    if e >= p.len() && keep_last {
        assert(segs =~= seq![p@.subrange(k as int, p@.len() as int)]);
        assert(segs.drop_last() =~= Seq::<Seq<u8>>::empty());
        return Some((st, k));
    }
    let step = step_segment(st, seg);
    if e >= p.len() {
        assert(segs =~= seq![seg@]);
        assert(segs.drop_first() =~= Seq::<Seq<u8>>::empty());
        return step;
    }
    proof {
        assert(segs == seq![seg@] + segments_from(p@, e + 1));
        assert(segs.drop_first() =~= segments_from(p@, e + 1));
        lemma_walk_cons(st.spec_layout(), st.spec_data(), st.spec_raw(), seg@, segments_from(p@, e + 1));
        if keep_last {
            let rest = segments_from(p@, e + 1);
            assert(rest.len() > 0) by {
                lemma_segments_nonempty(p@, e + 1);
            }
            assert(segs.drop_last() =~= seq![seg@] + rest.drop_last());
            assert(segs.drop_last().drop_first() =~= rest.drop_last());
            assert(segs.last() == rest.last());
            lemma_walk_cons(st.spec_layout(), st.spec_data(), st.spec_raw(), seg@, rest.drop_last());
        }
    }
    match step {
        None => None,
        Some((next, _)) => walk_from(next, p, e + 1, keep_last),
    }
}

proof fn lemma_segments_nonempty(p: Seq<u8>, k: int)
    requires
        0 <= k <= p.len(),
    ensures
        segments_from(p, k).len() > 0,
{
    lemma_next_slash(p, k);
}

/// Walking `s` then `rest` is walking `seq![s] + rest`.
proof fn lemma_walk_cons(layout: TagLayout, d: TagStructData, raw: Seq<u8>, s: Seq<u8>, rest: Seq<Seq<u8>>)
    ensures
        walk(layout, d, raw, seq![s] + rest) == match walk(layout, d, raw, seq![s]) {
            Some((d2, raw2)) => walk(layout, d2, raw2, rest),
            None => None,
        },
{
    let all = seq![s] + rest;
    assert(all[0] == s);
    assert(all.drop_first() =~= rest);
    assert(seq![s].drop_first() =~= Seq::<Seq<u8>>::empty());
    reveal_with_fuel(walk, 2);
}

/// Walking a single segment is one step.
proof fn lemma_walk_single(layout: TagLayout, d: TagStructData, raw: Seq<u8>, s: Seq<u8>)
    ensures
        walk(layout, d, raw, seq![s]) == match parse_segment(s) {
            None => None,
            Some((name, idx)) => match layout.named_bytes_from(layout.first_field(d.struct_index as int), name) {
                None => None,
                Some(fi) => step_into(layout, d, raw, fi, idx),
            },
        },
{
    let one = seq![s];
    assert(one[0] == s);
    assert(one.drop_first() =~= Seq::<Seq<u8>>::empty());
    reveal_with_fuel(walk, 2);
}

/// One segment from `st`: the field it names, stepped into.
fn step_segment<'a>(st: TagStruct<'a>, seg: &[u8]) -> (r: Option<(TagStruct<'a>, usize)>)
    ensures
        r matches Some((t, _)) ==> walk(st.spec_layout(), st.spec_data(), st.spec_raw(), seq![seg@]) == Some(
            (t.spec_data(), t.spec_raw()),
        ) && t.spec_layout() == st.spec_layout(),
        r is None ==> walk(st.spec_layout(), st.spec_data(), st.spec_raw(), seq![seg@]) is None,
{
    proof {
        lemma_walk_single(st.spec_layout(), st.spec_data(), st.spec_raw(), seg@);
    }
    let (n, idx) = match split_segment(seg) {
        Some(x) => x,
        None => {
            return None;
        },
    };
    let name = vstd::slice::slice_subrange(seg, 0, n);
    let f = match st.field_bytes(name) {
        Some(f) => f,
        None => {
            return None;
        },
    };
    let next = match idx {
        None => match f.as_struct() {
            Some(t) => Some(t),
            None => None,
        },
        Some(k) => {
            match f.as_block() {
                Some(b) => if k < b.len() as u64 {
                    b.element(k as usize)
                } else {
                    None
                },
                None => match f.as_array() {
                    Some(a) => if k < a.len() as u64 {
                        a.element(k as usize)
                    } else {
                        None
                    },
                    None => None,
                },
            }
        },
    };
    match next {
        Some(t) => Some((t, 0)),
        None => None,
    }
}

/// One segment from the mutable handle `st` (see [`step_segment`]): a
/// handle on the struct it steps into, whose edits are put back into
/// `st`'s struct and buffer (see [`put_back`]).
#[verifier::rlimit(40)]
fn step_segment_mut<'a>(st: TagStructMut<'a>, seg: &[u8]) -> (r: Option<TagStructMut<'a>>)
    requires
        st.inv(),
    ensures
        r is Some <==> walk(*st.layout, *old(st.struct_data), st.spec_raw(), seq![seg@]) is Some,
        r matches Some(t) ==> {
            &&& t.inv()
            &&& t.layout == st.layout
            &&& walk(*st.layout, *old(st.struct_data), st.spec_raw(), seq![seg@]) == Some((*t.struct_data, t.spec_raw()))
            &&& t.block_raw@ == child_buffer(*st.layout, *old(st.struct_data), old(st.block_raw)@, seg@)
            &&& put_back(
                *st.layout,
                *old(st.struct_data),
                old(st.block_raw)@,
                seg@,
                *final(t.struct_data),
                final(t.block_raw)@,
                *final(st.struct_data),
                final(st.block_raw)@,
            )
            &&& (*final(t.struct_data), final(t.block_raw)@) == child_after(
                *st.layout,
                *old(st.struct_data),
                seg@,
                *final(st.struct_data),
                final(st.block_raw)@,
            )
        },
        r is None ==> *final(st.struct_data) == *old(st.struct_data) && *final(st.block_raw) == *old(st.block_raw),
{
    proof {
        lemma_walk_single(*st.layout, *st.struct_data, st.spec_raw(), seg@);
    }
    let (n, idx) = match split_segment(seg) {
        Some(x) => x,
        None => {
            return None;
        },
    };
    let name = vstd::slice::slice_subrange(seg, 0, n);
    let fi = match st.as_ref().field_bytes(name) {
        Some(f) => f.index(),
        None => {
            return None;
        },
    };
    let layout = st.layout;
    let ghost s = st.struct_data.struct_index as int;
    proof {
        assert(layout.field_of_struct(s, fi as int));
        assert(layout.field_refs_valid(fi as int));
    }
    let field = layout.fields[fi];
    let j = match find_entry(&st.struct_data.sub_chunks, fi) {
        Some(j) => j,
        None => {
            return None;
        },
    };
    proof {
        assert(entry_ok(*layout, s, st.struct_data.sub_chunks@[j as int]));
    }
    let total = st.block_raw.len();
    let raw_start = st.raw_start;
    let ghost d = *st.struct_data;
    let ghost raw = st.spec_raw();
    let ghost buf = st.block_raw@;
    let ghost size = st.spec_size();
    let off = field.offset as usize;
    match (field.field_type, idx) {
        (TagFieldType::Struct, None) => {
            match &st.struct_data.sub_chunks[j].content {
                TagSubChunkContent::Struct(_) => {},
                _ => {
                    return None;
                },
            }
            let TagStructMut { layout, struct_data, block_raw, raw_start } = st;
            let entry = &mut struct_data.sub_chunks[j];
            match &mut entry.content {
                TagSubChunkContent::Struct(nested) => {
                    let t = TagStructMut { layout, struct_data: nested, block_raw, raw_start: raw_start + off };
                    proof {
                        assert(raw.subrange(off as int, off + t.spec_size()) =~= t.spec_raw());
                    }
                    Some(t)
                },
                _ => None,
            }
        },
        (TagFieldType::Array, Some(k)) => {
            let es = layout.struct_layouts[layout.array_layouts[field.definition as usize].struct_index as usize].size;
            match &st.struct_data.sub_chunks[j].content {
                TagSubChunkContent::Array(els) => {
                    if k >= els.len() as u64 {
                        return None;
                    }
                    proof {
                        let a = field.definition as int;
                        assert(els@.len() * es == layout.field_extent(fi as int)) by (nonlinear_arith)
                            requires
                                els@.len() == layout.array_layouts@[a].count,
                                es == layout.array_element_size(a),
                                layout.field_extent(fi as int) == layout.array_element_size(a) * (
                                layout.array_layouts@[a].count as int),
                        ;
                        lemma_record_bounds(es as int, k as int, els@.len() as int);
                    }
                },
                _ => {
                    return None;
                },
            }
            let ki = k as usize;
            let TagStructMut { layout, struct_data, block_raw, raw_start } = st;
            let entry = &mut struct_data.sub_chunks[j];
            match &mut entry.content {
                TagSubChunkContent::Array(els) => {
                    let ghost n_els = els@.len();
                    let e = &mut els[ki];
                    let t = TagStructMut { layout, struct_data: e, block_raw, raw_start: raw_start + off + ki * es };
                    proof {
                        assert(record(raw.subrange(off as int, off + n_els * es), es as int, ki as int) =~= t.spec_raw());
                    }
                    Some(t)
                },
                _ => None,
            }
        },
        (TagFieldType::Block, Some(k)) => {
            match &st.struct_data.sub_chunks[j].content {
                TagSubChunkContent::Block(b) => {
                    if k >= b.elements.len() as u64 {
                        return None;
                    }
                },
                _ => {
                    return None;
                },
            }
            let ki = k as usize;
            let TagStructMut { layout, struct_data, block_raw, raw_start } = st;
            let entry = &mut struct_data.sub_chunks[j];
            match &mut entry.content {
                TagSubChunkContent::Block(b) => {
                    let es = b.element_size(layout);
                    let btotal = b.raw_data.len();
                    proof {
                        lemma_record_bounds(es as int, ki as int, b.elements@.len() as int);
                        assert(b.elements@[ki as int].struct_index == block_struct(*layout, b.block_index as int));
                    }
                    let ghost old_b = *b;
                    let e = &mut b.elements[ki];
                    let rd = &mut b.raw_data;
                    let t = TagStructMut { layout, struct_data: e, block_raw: rd, raw_start: ki * es };
                    proof {
                        assert(record(old_b.raw_data@, es as int, ki as int) =~= t.spec_raw());
                    }
                    Some(t)
                },
                _ => None,
            }
        },
        _ => None,
    }
}

/// The segments that [`walk_from_mut`] walks: those of `p` from `k` on,
/// all but the last with `keep_last`.
pub open spec fn walked_segments(p: Seq<u8>, k: int, keep_last: bool) -> Seq<Seq<u8>> {
    if keep_last {
        segments_from(p, k).drop_last()
    } else {
        segments_from(p, k)
    }
}

/// Walk the segments of `p` from byte `k` on (see [`walk_from`]) through
/// the mutable handle `st`, when they resolve; the handle reached, whose
/// edits are put back into `st` level by level (see [`put_back_path`]).
fn walk_from_mut<'a>(st: TagStructMut<'a>, p: &[u8], k: usize, keep_last: bool) -> (r: Option<(TagStructMut<'a>, usize)>)
    requires
        st.inv(),
        k <= p@.len(),
        walk(*st.layout, *st.struct_data, st.spec_raw(), walked_segments(p@, k as int, keep_last)) is Some,
    ensures
        r matches Some((t, last)) && {
            &&& t.inv()
            &&& t.layout == st.layout
            &&& walk(*st.layout, *old(st.struct_data), st.spec_raw(), walked_segments(p@, k as int, keep_last)) == Some(
                (*t.struct_data, t.spec_raw()),
            )
            &&& put_back_path(
                *st.layout,
                *old(st.struct_data),
                st.spec_raw(),
                old(st.block_raw)@,
                walked_segments(p@, k as int, keep_last),
                *final(t.struct_data),
                final(t.block_raw)@,
                *final(st.struct_data),
                final(st.block_raw)@,
            )
            &&& keep_last ==> last <= p@.len() && segments_from(p@, k as int).len() > 0 && segments_from(
                p@,
                k as int,
            ).last() == p@.subrange(last as int, p@.len() as int)
        },
    decreases p@.len() - k,
{
    let total = p.len();
    let e = find_slash(p, k);
    proof {
        lemma_next_slash(p@, k as int);
    }
    let seg = vstd::slice::slice_subrange(p, k, e);
    let ghost segs = segments_from(p@, k as int);
    let ghost d = *st.struct_data;
    let ghost raw = st.spec_raw();
    let ghost buf = st.block_raw@;
    let ghost layout = *st.layout;
    if e >= p.len() && keep_last {
        assert(segs =~= seq![p@.subrange(k as int, p@.len() as int)]);
        assert(segs.drop_last() =~= Seq::<Seq<u8>>::empty());
        return Some((st, k));
    }
    let ghost rest = if e >= p.len() {
        Seq::<Seq<u8>>::empty()
    } else {
        walked_segments(p@, e + 1, keep_last)
    };
    let ghost walked = walked_segments(p@, k as int, keep_last);
    proof {
        if e >= p.len() {
            assert(segs =~= seq![seg@]);
            assert(walked =~= seq![seg@] + rest);
        } else {
            assert(segs == seq![seg@] + segments_from(p@, e + 1));
            if keep_last {
                let more = segments_from(p@, e + 1);
                assert(more.len() > 0) by {
                    lemma_segments_nonempty(p@, e + 1);
                }
                assert(walked =~= seq![seg@] + more.drop_last());
            } else {
                assert(walked =~= seq![seg@] + rest);
            }
        }
        assert(walked[0] == seg@);
        assert(walked.drop_first() =~= rest);
        lemma_walk_cons(layout, d, raw, seg@, rest);
    }
    let step = step_segment_mut(st, seg);
    let next = match step {
        Some(t) => t,
        None => {
            return None;
        },
    };
    if e >= p.len() {
        proof {
            assert(rest.len() == 0);
            assert(walk(layout, *next.struct_data, next.spec_raw(), rest) == Some((*next.struct_data, next.spec_raw())));
            assert(walk(layout, d, raw, walked) == Some((*next.struct_data, next.spec_raw())));
            assert(put_back_path(
                layout,
                *next.struct_data,
                next.spec_raw(),
                next.block_raw@,
                rest,
                *final(next.struct_data),
                final(next.block_raw)@,
                *final(next.struct_data),
                final(next.block_raw)@,
            ));
        }
        return Some((next, k));
    }
    proof {
        if keep_last {
            assert(segs.last() == segments_from(p@, e + 1).last());
            lemma_segments_nonempty(p@, e + 1);
        }
    }
    walk_from_mut(next, p, e + 1, keep_last)
}

/// The field reached by `path` from the mutable handle `st` (see
/// [`lookup`]): a handle on it whose edits are put back into `st` level
/// by level (see [`put_back_path`]); `None`, with nothing changed, when
/// the path does not resolve.
pub fn lookup_mut_from_struct<'a>(st: TagStructMut<'a>, path: &str) -> (r: Option<TagFieldMut<'a>>)
    requires
        st.inv(),
    ensures
        r is Some <==> lookup(*st.layout, *old(st.struct_data), st.spec_raw(), path_segments(path.spec_bytes())) is Some,
        r matches Some(f) ==> {
            &&& f.inv()
            &&& f.layout == st.layout
            &&& lookup(*st.layout, *old(st.struct_data), st.spec_raw(), path_segments(path.spec_bytes())) == Some(
                (*f.struct_data, f.spec_raw(), f.field_index as int),
            )
            &&& put_back_path(
                *st.layout,
                *old(st.struct_data),
                st.spec_raw(),
                old(st.block_raw)@,
                path_segments(path.spec_bytes()).drop_last(),
                *final(f.struct_data),
                final(f.block_raw)@,
                *final(st.struct_data),
                final(st.block_raw)@,
            )
        },
        r is None ==> *final(st.struct_data) == *old(st.struct_data) && *final(st.block_raw) == *old(st.block_raw),
{
    let p = path.as_bytes();
    proof {
        lemma_segments_nonempty(p@, 0);
    }
    let found = lookup_from_struct(st.as_ref(), path);
    if found.is_none() {
        return None;
    }
    proof {
        assert(walked_segments(p@, 0, true) == path_segments(p@).drop_last());
    }
    let (t, last) = match walk_from_mut(st, p, 0, true) {
        Some(x) => x,
        None => {
            return None;
        },
    };
    let seg = vstd::slice::slice_subrange(p, last, p.len());
    match split_segment(seg) {
        Some((n, None)) => {
            let name = vstd::slice::slice_subrange(seg, 0, n);
            let fi = match t.as_ref().field_bytes(name) {
                Some(f) => f.index(),
                None => {
                    return None;
                },
            };
            let TagStructMut { layout, struct_data, block_raw, raw_start } = t;
            Some(TagFieldMut { layout, struct_data, block_raw, raw_start, field_index: fi })
        },
        _ => None,
    }
}

/// The field reached by `path` from `st` (see [`lookup`]).
pub fn lookup_from_struct<'a>(st: TagStruct<'a>, path: &str) -> (r: Option<TagField<'a>>)
    ensures
        r matches Some(f) ==> lookup(st.spec_layout(), st.spec_data(), st.spec_raw(), path_segments(path.spec_bytes()))
            == Some((f.spec_data(), f.spec_raw(), f.spec_field_index())) && f.spec_layout() == st.spec_layout(),
        r is None ==> lookup(st.spec_layout(), st.spec_data(), st.spec_raw(), path_segments(path.spec_bytes())) is None,
{
    let p = path.as_bytes();
    let (t, last) = match walk_from(st, p, 0, true) {
        Some(x) => x,
        None => {
            proof {
                lemma_segments_nonempty(p@, 0);
            }
            return None;
        },
    };
    proof {
        lemma_segments_nonempty(p@, 0);
    }
    let seg = vstd::slice::slice_subrange(p, last, p.len());
    match split_segment(seg) {
        Some((n, None)) => {
            let name = vstd::slice::slice_subrange(seg, 0, n);
            t.field_bytes(name)
        },
        _ => None,
    }
}

} // verus!
