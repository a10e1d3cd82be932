//! Integer geometry helpers shared by the mesh and collision walkers:
//! triangle-strip expansion and the BSP edge-ring walk.
use vstd::prelude::*;
use vstd::utf8::valid_utf8;

use crate::api::{field_named, int_like_value_of, reference_at, TagStruct};
use crate::data::TagStructData;
use crate::fields::{reference_of_payload, TagReferenceData};
use crate::layout::TagLayout;

verus! {

/// The strip index that ends one sub-strip and starts the next.
pub open spec fn strip_restart() -> u16 {
    0xFFFF
}

/// Where the sub-strip holding position `p` of `s` starts: just past the
/// last restart index before `p`, or 0.
pub open spec fn segment_start(s: Seq<u16>, p: int) -> int
    decreases p,
{
    if p <= 0 {
        0
    } else if s[p - 1] == strip_restart() {
        p
    } else {
        segment_start(s, p - 1)
    }
}

/// The triangle that the window `s[p], s[p + 1], s[p + 2]` gives: none
/// when the window crosses a restart or repeats an index (a splice
/// triangle); otherwise its indices in order at an even place of its
/// sub-strip and with the last two swapped at an odd place.
pub open spec fn window_triangle(s: Seq<u16>, p: int) -> Option<(u16, u16, u16)> {
    let a = s[p];
    let b = s[p + 1];
    let c = s[p + 2];
    if a == strip_restart() || b == strip_restart() || c == strip_restart() {
        None
    } else if a == b || b == c || a == c {
        None
    } else if (p - segment_start(s, p)) % 2 == 0 {
        Some((a, b, c))
    } else {
        Some((a, c, b))
    }
}

/// The triangles of the first `n` windows of `s`, in order.
pub open spec fn strip_triangles(s: Seq<u16>, n: int) -> Seq<(u16, u16, u16)>
    decreases n,
{
    if n <= 0 {
        Seq::empty()
    } else {
        let prev = strip_triangles(s, n - 1);
        match window_triangle(s, n - 1) {
            Some(t) => prev.push(t),
            None => prev,
        }
    }
}

/// The number of three-index windows of a strip of length `len`.
pub open spec fn window_count(len: int) -> int {
    if len >= 2 {
        len - 2
    } else {
        0
    }
}

/// Every triangle of the first `n` windows has three distinct indices,
/// none of them a restart.
proof fn lemma_strip_triangles_proper(s: Seq<u16>, n: int)
    requires
        n <= window_count(s.len() as int),
    ensures
        forall|k: int|
            0 <= k < strip_triangles(s, n).len() ==> {
                let t = #[trigger] strip_triangles(s, n)[k];
                &&& t.0 != t.1 && t.1 != t.2 && t.0 != t.2
                &&& t.0 != strip_restart() && t.1 != strip_restart() && t.2 != strip_restart()
            },
    decreases n,
{
    if n > 0 {
        lemma_strip_triangles_proper(s, n - 1);
        let prev = strip_triangles(s, n - 1);
        assert forall|k: int| 0 <= k < strip_triangles(s, n).len() implies {
            let t = #[trigger] strip_triangles(s, n)[k];
            &&& t.0 != t.1 && t.1 != t.2 && t.0 != t.2
            &&& t.0 != strip_restart() && t.1 != strip_restart() && t.2 != strip_restart()
        } by {
            if k < prev.len() {
                assert(strip_triangles(s, n)[k] == prev[k]);
            }
        }
    }
}

/// Expands a triangle strip into a triangle list. The strip is cut at
/// each restart index (`0xFFFF`); inside each sub-strip every window of
/// three consecutive indices is a triangle, its winding flipped at odd
/// places, and windows that repeat an index are dropped.
pub fn strip_to_list(strip: &[u16]) -> (r: Vec<(u16, u16, u16)>)
    ensures
        r@ == strip_triangles(strip@, window_count(strip@.len() as int)),
        forall|k: int|
            0 <= k < r@.len() ==> {
                let t = #[trigger] r@[k];
                &&& t.0 != t.1 && t.1 != t.2 && t.0 != t.2
                &&& t.0 != strip_restart() && t.1 != strip_restart() && t.2 != strip_restart()
            },
{
    let n = strip.len();
    let windows: usize = if n >= 2 { n - 2 } else { 0 };
    let mut out: Vec<(u16, u16, u16)> = Vec::with_capacity(windows);
    let mut start: usize = 0;
    let mut p: usize = 0;
    while p < windows
        invariant
            n == strip@.len(),
            windows == window_count(n as int),
            p <= windows,
            start <= p,
            start == segment_start(strip@, p as int),
            out@ == strip_triangles(strip@, p as int),
        decreases windows - p,
    {
        let a = strip[p];
        let b = strip[p + 1];
        let c = strip[p + 2];
        if a == 0xFFFF || b == 0xFFFF || c == 0xFFFF {
        } else if a == b || b == c || a == c {
        } else if (p - start) % 2 == 0 {
            out.push((a, b, c));
        } else {
            out.push((a, c, b));
        }
        if a == 0xFFFF {
            start = p + 1;
        }
        p = p + 1;
    }
    proof {
        lemma_strip_triangles_proper(strip@, windows as int);
    }
    out
}

/// One row of a BSP `edges` block: its two vertices, the edges that
/// follow it around each of its two surfaces, and those surfaces.
#[derive(Clone, Copy, Debug, PartialEq, Eq)]
pub struct EdgeRow {
    pub start_vertex: i32,
    pub end_vertex: i32,
    pub forward_edge: i32,
    pub reverse_edge: i32,
    pub left_surface: i32,
    pub right_surface: i32,
}

/// What edge `e` gives when walking `surface`: the vertex it emits and the
/// edge that follows; `None` when neither side of `e` is `surface`.
pub open spec fn ring_step(e: EdgeRow, surface: i32) -> Option<(i32, i32)> {
    if e.left_surface == surface {
        Some((e.start_vertex, e.forward_edge))
    } else if e.right_surface == surface {
        Some((e.end_vertex, e.reverse_edge))
    } else {
        None
    }
}

/// The vertices met walking `surface` from edge `current` back to edge
/// `first`, having taken `steps` steps of at most `max`; `None` when the
/// walk leaves the block, meets an edge of another surface, or runs past
/// `max` steps.
pub open spec fn ring_from(edges: Seq<EdgeRow>, surface: i32, first: i32, current: i32, steps: int, max: int) -> Option<
    Seq<i32>,
>
    decreases max - steps,
{
    if current < 0 || current >= edges.len() {
        None
    } else {
        match ring_step(edges[current as int], surface) {
            None => None,
            Some((v, next)) => if next == first {
                Some(seq![v])
            } else if steps + 1 > max || steps < 0 {
                None
            } else {
                match ring_from(edges, surface, first, next, steps + 1, max) {
                    Some(rest) => Some(seq![v] + rest),
                    None => None,
                }
            },
        }
    }
}

/// The step bound of a walk over `n` edges.
pub open spec fn ring_step_bound(n: int) -> int {
    2 * n + 8
}

/// The vertices bounding `surface` in ring order, or nothing when the
/// ring is malformed.
pub open spec fn surface_ring(edges: Seq<EdgeRow>, surface: i32, first: i32) -> Seq<i32> {
    match ring_from(edges, surface, first, first, 0, ring_step_bound(edges.len() as int)) {
        Some(vs) => vs,
        None => Seq::empty(),
    }
}

/// `prefix` before what `rest` gives, when it gives anything.
pub open spec fn opt_prepend(prefix: Seq<i32>, rest: Option<Seq<i32>>) -> Option<Seq<i32>> {
    match rest {
        Some(x) => Some(prefix + x),
        None => None,
    }
}

/// Walks the edge ring of `surface` from `first_edge`: at each edge the
/// side that belongs to the surface decides which vertex is emitted and
/// which edge comes next, until the walk returns to `first_edge`. A
/// malformed ring (an edge out of the block, an edge of neither side, or
/// more than `2 * edges.len() + 8` steps) gives an empty list.
pub fn walk_surface_ring(surface_index: i32, first_edge: i32, edges: &[EdgeRow]) -> (r: Vec<i32>)
    requires
        ring_step_bound(edges@.len() as int) <= usize::MAX,
    ensures
        r@ == surface_ring(edges@, surface_index, first_edge),
{
    let mut out: Vec<i32> = Vec::new();
    let mut current: i32 = first_edge;
    let mut steps: usize = 0;
    let max_steps: usize = edges.len() * 2 + 8;
    let ghost max = ring_step_bound(edges@.len() as int);
    loop
        invariant
            max == max_steps,
            max == ring_step_bound(edges@.len() as int),
            steps <= max_steps,
            ring_from(edges@, surface_index, first_edge, first_edge, 0, max) == opt_prepend(
                out@,
                ring_from(edges@, surface_index, first_edge, current, steps as int, max),
            ),
        decreases max_steps - steps,
    {
        if current < 0 || (current as usize) >= edges.len() {
            return Vec::new();
        }
        let e = edges[current as usize];
        let next: i32;
        if e.left_surface == surface_index {
            out.push(e.start_vertex);
            next = e.forward_edge;
        } else if e.right_surface == surface_index {
            out.push(e.end_vertex);
            next = e.reverse_edge;
        } else {
            return Vec::new();
        }
        if next == first_edge {
            proof {
                assert(out@ =~= out@.drop_last() + seq![out@.last()]);
            }
            return out;
        }
        proof {
            let prev = out@.drop_last();
            assert(out@ =~= prev + seq![out@.last()]);
            if steps + 1 <= max_steps {
                match ring_from(edges@, surface_index, first_edge, next, steps + 1, max) {
                    Some(rest) => {
                        assert(prev + (seq![out@.last()] + rest) =~= out@ + rest);
                    },
                    None => {},
                }
            }
        }
        current = next;
        steps = steps + 1;
        if steps > max_steps {
            return Vec::new();
        }
    }
}

//================================================================================
// Field readers
//================================================================================

/// What [`read_int_any`] reads from the instance `(d, raw)`.
pub open spec fn read_int_like_spec(layout: TagLayout, d: TagStructData, raw: Seq<u8>, name: Seq<char>) -> Option<i64> {
    match field_named(layout, d, name) {
        Some(fi) => int_like_value_of(layout.fields@[fi].field_type, raw, layout.fields@[fi].offset as int),
        None => None,
    }
}

/// Reads any integer-shaped field named `name`: integers, block indices
/// (plain and custom), enums and flags, whichever width. `None` when
/// there is no such field or it holds something else.
pub fn read_int_any(s: &TagStruct, name: &str) -> (r: Option<i64>)
    ensures
        r == read_int_like_spec(s.spec_layout(), s.spec_data(), s.spec_raw(), name@),
{
    match s.field(name) {
        Some(f) => f.int_like_value(),
        None => None,
    }
}

/// The path a tag-reference payload names, `None` for a null reference.
pub open spec fn reference_path_of(p: Seq<u8>) -> Option<Seq<char>> {
    match reference_of_payload(p) {
        Some((_, path)) => Some(path),
        None => None,
    }
}

/// What [`read_tag_ref_path`] reads from struct `d`.
pub open spec fn read_ref_path_spec(layout: TagLayout, d: TagStructData, name: Seq<char>) -> Option<Seq<char>> {
    match field_named(layout, d, name) {
        Some(fi) => match reference_at(layout, d, fi) {
            Some(p) => reference_path_of(p),
            None => None,
        },
        None => None,
    }
}

/// The reference that field `name` of struct `d` holds, if any, names its
/// path in UTF-8.
pub open spec fn ref_path_readable(layout: TagLayout, d: TagStructData, name: Seq<char>) -> bool {
    field_named(layout, d, name) matches Some(fi) ==> (reference_at(layout, d, fi) matches Some(p) ==> (p.len()
        >= 4 ==> valid_utf8(p.skip(4))))
}

/// The path of the tag reference named `name`; `None` when there is no
/// such field, it is not a tag reference, its payload is missing, or the
/// reference is null.
pub fn read_tag_ref_path(s: &TagStruct, name: &str) -> (r: Option<String>)
    requires
        ref_path_readable(s.spec_layout(), s.spec_data(), name@),
    ensures
        r matches Some(p) ==> read_ref_path_spec(s.spec_layout(), s.spec_data(), name@) == Some(p@),
        r is None ==> read_ref_path_spec(s.spec_layout(), s.spec_data(), name@) is None,
{
    match s.field(name) {
        Some(f) => match f.reference_payload() {
            Some(p) => match TagReferenceData::from_bytes(p).group_tag_and_name {
                Some((_, path)) => Some(path),
                None => None,
            },
            None => None,
        },
        None => None,
    }
}

} // verus!
