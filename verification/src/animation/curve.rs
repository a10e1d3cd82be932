//! The byte walk of the curve codecs (slots 9 and 10): where each node's
//! header, key-frame deltas and per-frame values or Hermite segments lie
//! in the stream, and which read first runs past its end. Evaluating the
//! curves is floating-point work left to the caller.
use vstd::prelude::*;

use crate::animation::{AnimationError, Codec};
use crate::bytes::{le_u16, le_u32, read_u16_le, read_u32_le};

verus! {

/// The three kinds of curve node.
#[derive(Debug, Clone, Copy, PartialEq, Eq, Structural)]
pub enum CurveKind {
    Rotation,
    Translation,
    Scale,
}

/// What a node supplies at one frame.
#[derive(Debug, Clone, Copy, PartialEq, Eq, Structural)]
pub enum CurveStep {
    /// The frame's value, stored at this offset (nodes without keys).
    Value(usize),
    /// A new Hermite segment starts at this frame: its start value, its
    /// tangent bytes and its end value, spanning frames `current` to
    /// `next`.
    Segment { p1: usize, tangent: usize, p2: usize, current: u32, next: u32 },
    /// The frame lies in the segment last started (or, before any, in the
    /// identity segment).
    Hold,
}

/// Where one node lies: its header and its per-frame steps.
#[derive(Debug, Clone)]
pub struct CurveNodePlan {
    pub start: usize,
    pub steps: Vec<CurveStep>,
}

/// The layout of a whole curve stream.
#[derive(Debug, Clone)]
pub struct CurvePlan {
    pub codec: Codec,
    pub frame_count: u16,
    pub revised: bool,
    pub rotations: Vec<CurveNodePlan>,
    pub translations: Vec<CurveNodePlan>,
    pub scales: Vec<CurveNodePlan>,
}

/// Bytes of one stored value: three `i16` components for rotations and
/// translations, one for scales.
pub open spec fn value_bytes(k: CurveKind) -> int {
    match k {
        CurveKind::Scale => 2,
        _ => 6,
    }
}

/// Bytes of a segment's tangent nibbles.
pub open spec fn tangent_bytes(k: CurveKind) -> int {
    match k {
        CurveKind::Rotation => 4,
        CurveKind::Translation => 3,
        CurveKind::Scale => 1,
    }
}

/// Bytes of the `f32` offset / scale words after the 8-byte node header.
pub open spec fn float_bytes(k: CurveKind) -> int {
    match k {
        CurveKind::Rotation => 0,
        CurveKind::Translation => 16,
        CurveKind::Scale => 8,
    }
}

/// The first failing end of a run of `total` bytes read in `w`-byte reads
/// from `p` in a stream of `len` bytes, if any read fails.
pub open spec fn run_err(len: int, p: int, w: int, total: int) -> Option<int> {
    if p + total <= len {
        None
    } else {
        Some(p + w * ((len - p) / w + 1))
    }
}

/// The sum of the `i` delta bytes at `at`.
pub open spec fn delta_sum(b: Seq<u8>, at: int, i: int) -> int
    decreases i,
{
    if i <= 0 {
        0
    } else {
        delta_sum(b, at, i - 1) + b[at + i - 1]
    }
}

/// A node's key frames: 0, then the running sums of its `count` deltas.
pub open spec fn key_frames(b: Seq<u8>, at: int, count: int) -> Seq<u32> {
    Seq::new((count + 1) as nat, |i: int| delta_sum(b, at, i) as u32)
}

/// `first` then `rest`, when `rest` was read.
pub open spec fn steps_then(first: CurveStep, rest: Result<Seq<CurveStep>, int>) -> Result<Seq<CurveStep>, int> {
    match rest {
        Ok(s) => Ok(seq![first] + s),
        Err(e) => Err(e),
    }
}

/// The steps of frames `f..n` of a node whose cursor is at `pos`, the
/// next unstarted segment being key `index` of `kf` (`direct`: the node
/// stores a value per frame).
pub open spec fn frames_walk(
    b: Seq<u8>,
    k: CurveKind,
    direct: bool,
    kf: Seq<u32>,
    n: int,
    f: int,
    pos: int,
    index: int,
) -> Result<Seq<CurveStep>, int>
    decreases n - f,
{
    let len = b.len() as int;
    let e = value_bytes(k);
    let t = tangent_bytes(k);
    if f >= n {
        Ok(Seq::empty())
    } else if direct {
        match run_err(len, pos, 2, e) {
            Some(x) => Err(x),
            None => steps_then(CurveStep::Value(pos as usize), frames_walk(b, k, direct, kf, n, f + 1, pos + e, index)),
        }
    } else if 0 <= index < kf.len() && kf[index] == f && f < n - 1 {
        match run_err(len, pos, 2, e) {
            Some(x) => Err(x),
            None => match run_err(len, pos + e, 1, t) {
                Some(x) => Err(x),
                None => match run_err(len, pos + e + t, 2, e) {
                    Some(x) => Err(x),
                    None => {
                        let current = kf[index];
                        let next = if index + 1 < kf.len() {
                            kf[index + 1]
                        } else {
                            (current + 1) as u32
                        };
                        steps_then(
                            CurveStep::Segment {
                                p1: pos as usize,
                                tangent: (pos + e) as usize,
                                p2: (pos + e + t) as usize,
                                current,
                                next,
                            },
                            frames_walk(b, k, direct, kf, n, f + 1, pos + e + t, index + 1),
                        )
                    },
                },
            },
        }
    } else {
        steps_then(CurveStep::Hold, frames_walk(b, k, direct, kf, n, f + 1, pos, index))
    }
}

/// The first failing end among the node header's reads.
pub open spec fn header_err(len: int, k: CurveKind, s: int) -> Option<int> {
    match run_err(len, s, 2, 4) {
        Some(x) => Some(x),
        None => match run_err(len, s + 4, 1, 2) {
            Some(x) => Some(x),
            None => match run_err(len, s + 6, 2, 2) {
                Some(x) => Some(x),
                None => run_err(len, s + 8, 4, float_bytes(k)),
            },
        },
    }
}

/// The steps of a node of kind `k` whose header is at `s`, over `n`
/// frames; `Err` with the end of the first read past the stream.
pub open spec fn node_walk(b: Seq<u8>, k: CurveKind, s: int, n: int) -> Result<Seq<CurveStep>, int> {
    let len = b.len() as int;
    match header_err(len, k, s) {
        Some(x) => Err(x),
        None => {
            let kc = le_u16(b, s + 2) as int;
            let direct = b[s + 4] & 1 != 0;
            let h = 8 + float_bytes(k);
            if direct {
                frames_walk(b, k, true, Seq::empty(), n, 0, s + h, 0)
            } else {
                match run_err(len, s + h, 1, kc) {
                    Some(x) => Err(x),
                    None => frames_walk(b, k, false, key_frames(b, s + h, kc), n, 0, s + h + kc, 0),
                }
            }
        },
    }
}

/// The nodes `i..count` of a table at `table` whose entries are offsets
/// from `payload`; `Err` with the first failing seek or read end.
pub open spec fn nodes_walk(
    b: Seq<u8>,
    k: CurveKind,
    payload: int,
    table: int,
    count: int,
    n: int,
    i: int,
) -> Result<Seq<(int, Seq<CurveStep>)>, int>
    decreases count - i,
{
    if i >= count {
        Ok(Seq::empty())
    } else {
        let off = payload + le_u32(b, table + 4 * i);
        if off > b.len() {
            Err(off)
        } else {
            match node_walk(b, k, off, n) {
                Err(e) => Err(e),
                Ok(steps) => match nodes_walk(b, k, payload, table, count, n, i + 1) {
                    Err(e) => Err(e),
                    Ok(rest) => Ok(seq![(off, steps)] + rest),
                },
            }
        }
    }
}

/// The nodes of one component whose offset table sits at `payload + rel`
/// (nothing when there are none).
pub open spec fn component_walk(b: Seq<u8>, k: CurveKind, payload: int, rel: int, count: int, n: int) -> Result<
    Seq<(int, Seq<CurveStep>)>,
    int,
> {
    if count == 0 {
        Ok(Seq::empty())
    } else {
        let table = payload + rel;
        if table > b.len() {
            Err(table)
        } else {
            match run_err(b.len() as int, table, 4, 4 * count) {
                Some(x) => Err(x),
                None => nodes_walk(b, k, payload, table, count, n, 0),
            }
        }
    }
}

/// The walk of a whole stream of at least 32 bytes over `n` frames: the
/// rotation nodes (whose offset table follows the header), then the
/// translation and scale nodes.
pub open spec fn curve_walk(b: Seq<u8>, n: int) -> Result<
    (Seq<(int, Seq<CurveStep>)>, Seq<(int, Seq<CurveStep>)>, Seq<(int, Seq<CurveStep>)>),
    int,
> {
    let len = b.len() as int;
    let payload = le_u32(b, 20) as int;
    let nr = b[1] as int;
    match run_err(len, 32, 4, 4 * nr) {
        Some(x) => Err(x),
        None => match nodes_walk(b, CurveKind::Rotation, payload, 32, nr, n, 0) {
            Err(e) => Err(e),
            Ok(rs) => match component_walk(b, CurveKind::Translation, payload, le_u32(b, 12) as int, b[2] as int, n) {
                Err(e) => Err(e),
                Ok(ts) => match component_walk(b, CurveKind::Scale, payload, le_u32(b, 16) as int, b[3] as int, n) {
                    Err(e) => Err(e),
                    Ok(ss) => Ok((rs, ts, ss)),
                },
            },
        },
    }
}

/// The planned nodes are the walked ones.
pub open spec fn nodes_planned(v: Seq<CurveNodePlan>, w: Seq<(int, Seq<CurveStep>)>) -> bool {
    &&& v.len() == w.len()
    &&& forall|i: int| 0 <= i < v.len() ==> (#[trigger] v[i]).start == w[i].0 && v[i].steps@ == w[i].1
}

//================================================================================
// The walk
//================================================================================

fn check_run(len: usize, p: usize, w: usize, total: usize) -> (r: Result<(), usize>)
    requires
        p <= len,
        len + 8 <= usize::MAX,
        1 <= w <= 4,
    ensures
        match run_err(len as int, p as int, w as int, total as int) {
            None => r is Ok,
            Some(x) => r == Err::<(), usize>(x as usize) && x <= len + 4,
        },
{
    if total <= len - p {
        Ok(())
    } else {
        let d = len - p;
        let q = d / w;
        assert(w * q <= d && w * (q + 1) == w * q + w) by (nonlinear_arith)
            requires
                q == d / w,
                w >= 1,
        ;
        Err(p + w * q + w)
    }
}

fn kind_value_bytes(k: CurveKind) -> (r: usize)
    ensures
        r == value_bytes(k),
{
    match k {
        CurveKind::Scale => 2,
        _ => 6,
    }
}

fn kind_tangent_bytes(k: CurveKind) -> (r: usize)
    ensures
        r == tangent_bytes(k),
{
    match k {
        CurveKind::Rotation => 4,
        CurveKind::Translation => 3,
        CurveKind::Scale => 1,
    }
}

fn kind_float_bytes(k: CurveKind) -> (r: usize)
    ensures
        r == float_bytes(k),
{
    match k {
        CurveKind::Rotation => 0,
        CurveKind::Translation => 16,
        CurveKind::Scale => 8,
    }
}

proof fn lemma_delta_sum_bound(b: Seq<u8>, at: int, i: int)
    requires
        0 <= i,
    ensures
        0 <= delta_sum(b, at, i) <= 255 * i,
    decreases i,
{
    if i > 0 {
        lemma_delta_sum_bound(b, at, i - 1);
    }
}

/// The key frames of `count` deltas at `at`.
fn read_key_frames(blob: &[u8], at: usize, count: usize) -> (r: Vec<u32>)
    requires
        at + count <= blob@.len(),
        blob@.len() <= usize::MAX,
        count <= 0xFFFF,
    ensures
        r@ == key_frames(blob@, at as int, count as int),
{
    let mut out: Vec<u32> = Vec::new();
    out.push(0);
    let mut total: u32 = 0;
    let mut i: usize = 0;
    while i < count
        invariant
            i <= count <= 0xFFFF,
            at + count <= blob@.len(),
            blob@.len() <= usize::MAX,
            out@.len() == i + 1,
            total == delta_sum(blob@, at as int, i as int),
            forall|j: int| 0 <= j <= i ==> #[trigger] out@[j] == delta_sum(blob@, at as int, j) as u32,
        decreases count - i,
    {
        proof {
            lemma_delta_sum_bound(blob@, at as int, i as int);
            assert(total <= 255 * 0xFFFF);
        }
        assert(at + i < blob@.len());
        let d = blob[at + i];
        total = total + d as u32;
        out.push(total);
        i = i + 1;
    }
    assert(out@ =~= key_frames(blob@, at as int, count as int));
    out
}

/// The steps of the node at `s` ([`node_walk`]).
fn plan_curve_node(blob: &[u8], k: CurveKind, s: usize, n: u16) -> (r: Result<Vec<CurveStep>, usize>)
    requires
        s <= blob@.len(),
        blob@.len() + 8 <= usize::MAX,
    ensures
        match node_walk(blob@, k, s as int, n as int) {
            Ok(st) => r matches Ok(v) && v@ == st,
            Err(x) => r == Err::<Vec<CurveStep>, usize>(x as usize),
        },
{
    let len = blob.len();
    let ghost b = blob@;
    check_run(len, s, 2, 4)?;
    check_run(len, s + 4, 1, 2)?;
    check_run(len, s + 6, 2, 2)?;
    let fb = kind_float_bytes(k);
    check_run(len, s + 8, 4, fb)?;
    let kc = read_u16_le(blob, s + 2) as usize;
    let direct = blob[s + 4] & 1 != 0;
    let h = 8 + fb;
    let e = kind_value_bytes(k);
    let t = kind_tangent_bytes(k);
    let kf: Vec<u32>;
    let mut pos: usize;
    if direct {
        kf = Vec::new();
        pos = s + h;
    } else {
        check_run(len, s + h, 1, kc)?;
        kf = read_key_frames(blob, s + h, kc);
        pos = s + h + kc;
    }
    let ghost kfs = kf@;
    proof {
        if !direct {
            assert forall|j: int| 0 <= j < kfs.len() implies kfs[j] <= 255 * 0xFFFF by {
                lemma_delta_sum_bound(b, (s + h) as int, j);
            }
        }
    }
    let ghost whole = frames_walk(b, k, direct, kfs, n as int, 0, pos as int, 0);
    proof {
        assert(whole == node_walk(b, k, s as int, n as int));
    }
    let mut out: Vec<CurveStep> = Vec::new();
    let mut f: u32 = 0;
    let mut index: usize = 0;
    while f < n as u32
        invariant
            b == blob@,
            len == b.len(),
            len + 8 <= usize::MAX,
            pos <= len,
            whole == node_walk(b, k, s as int, n as int),
            e == value_bytes(k),
            t == tangent_bytes(k),
            kf@ == kfs,
            kfs.len() <= 0x10000,
            direct ==> kfs.len() == 0,
            forall|j: int| 0 <= j < kfs.len() ==> kfs[j] <= 255 * 0xFFFF,
            f <= n,
            index <= kfs.len(),
            whole == match frames_walk(b, k, direct, kfs, n as int, f as int, pos as int, index as int) {
                Ok(rest) => Ok(out@ + rest),
                Err(x) => Err(x),
            },
        decreases n - f,
    {
        if direct {
            check_run(len, pos, 2, e)?;
            let ghost before = out@;
            out.push(CurveStep::Value(pos));
            proof {
                let rest = frames_walk(b, k, direct, kfs, n as int, f + 1, (pos + e) as int, index as int);
                assert(run_err(len as int, pos as int, 2, e as int) is None);
                assert(frames_walk(b, k, direct, kfs, n as int, f as int, pos as int, index as int) == steps_then(
                    CurveStep::Value(pos),
                    rest,
                ));
                if let Ok(r2) = rest {
                    assert(before + (seq![CurveStep::Value(pos)] + r2) =~= out@ + r2);
                }
                assert(whole == match rest {
                    Ok(r2) => Ok(out@ + r2),
                    Err(x) => Err(x),
                });
            }
            pos = pos + e;
        } else if index < kf.len() && kf[index] == f && f + 1 < n as u32 {
            check_run(len, pos, 2, e)?;
            check_run(len, pos + e, 1, t)?;
            check_run(len, pos + e + t, 2, e)?;
            let current = kf[index];
            let next = if index + 1 < kf.len() {
                kf[index + 1]
            } else {
                current + 1
            };
            let step = CurveStep::Segment { p1: pos, tangent: pos + e, p2: pos + e + t, current, next };
            let ghost before = out@;
            out.push(step);
            proof {
                let rest = frames_walk(b, k, direct, kfs, n as int, f + 1, (pos + e + t) as int, index + 1);
                if let Ok(r2) = rest {
                    assert(before + (seq![step] + r2) =~= out@ + r2);
                }
                assert(whole == match rest {
                    Ok(r2) => Ok(out@ + r2),
                    Err(x) => Err(x),
                });
            }
            pos = pos + e + t;
            index = index + 1;
        } else {
            let ghost before = out@;
            out.push(CurveStep::Hold);
            proof {
                let rest = frames_walk(b, k, direct, kfs, n as int, f + 1, pos as int, index as int);
                if let Ok(r2) = rest {
                    assert(before + (seq![CurveStep::Hold] + r2) =~= out@ + r2);
                }
                assert(whole == match rest {
                    Ok(r2) => Ok(out@ + r2),
                    Err(x) => Err(x),
                });
            }
        }
        f = f + 1;
    }
    proof {
        assert(out@ + Seq::<CurveStep>::empty() =~= out@);
    }
    Ok(out)
}

/// The nodes of a table of `count` offsets at `table` ([`nodes_walk`]).
fn plan_curve_nodes(blob: &[u8], k: CurveKind, payload: u32, table: usize, count: usize, n: u16) -> (r: Result<
    Vec<CurveNodePlan>,
    usize,
>)
    requires
        table + 4 * count <= blob@.len(),
        blob@.len() + 8 <= usize::MAX,
    ensures
        match nodes_walk(blob@, k, payload as int, table as int, count as int, n as int, 0) {
            Ok(w) => r matches Ok(v) && nodes_planned(v@, w),
            Err(x) => r == Err::<Vec<CurveNodePlan>, usize>(x as usize),
        },
{
    let len = blob.len();
    let ghost b = blob@;
    let ghost whole = nodes_walk(b, k, payload as int, table as int, count as int, n as int, 0);
    let ghost mut done: Seq<(int, Seq<CurveStep>)> = Seq::empty();
    let mut out: Vec<CurveNodePlan> = Vec::new();
    let mut i: usize = 0;
    while i < count
        invariant
            b == blob@,
            len == b.len(),
            len + 8 <= usize::MAX,
            table + 4 * count <= len,
            i <= count,
            whole == nodes_walk(b, k, payload as int, table as int, count as int, n as int, 0),
            nodes_planned(out@, done),
            whole == match nodes_walk(b, k, payload as int, table as int, count as int, n as int, i as int) {
                Ok(rest) => Ok(done + rest),
                Err(x) => Err(x),
            },
        decreases count - i,
    {
        let rel = read_u32_le(blob, table + 4 * i);
        let off: u64 = payload as u64 + rel as u64;
        if off > len as u64 {
            return Err(off as usize);
        }
        let steps = plan_curve_node(blob, k, off as usize, n)?;
        let ghost st = steps@;
        out.push(CurveNodePlan { start: off as usize, steps });
        proof {
            let rest = nodes_walk(b, k, payload as int, table as int, count as int, n as int, i + 1);
            let prev = done;
            done = done.push((off as int, st));
            if let Ok(r2) = rest {
                assert(prev + (seq![(off as int, st)] + r2) =~= done + r2);
            }
            assert forall|j: int| 0 <= j < out@.len() implies (#[trigger] out@[j]).start == done[j].0 && out@[j].steps@
                == done[j].1 by {
                if j < prev.len() {
                    assert(out@[j] == out@.drop_last()[j]);
                }
            }
        }
        i = i + 1;
    }
    proof {
        assert(done + Seq::<(int, Seq<CurveStep>)>::empty() =~= done);
    }
    Ok(out)
}

/// The nodes of one component ([`component_walk`]).
fn plan_curve_component(blob: &[u8], k: CurveKind, payload: u32, rel: u32, count: usize, n: u16) -> (r: Result<
    Vec<CurveNodePlan>,
    usize,
>)
    requires
        blob@.len() + 8 <= usize::MAX,
        count <= 255,
    ensures
        match component_walk(blob@, k, payload as int, rel as int, count as int, n as int) {
            Ok(w) => r matches Ok(v) && nodes_planned(v@, w),
            Err(x) => r == Err::<Vec<CurveNodePlan>, usize>(x as usize),
        },
{
    if count == 0 {
        return Ok(Vec::new());
    }
    let len = blob.len();
    let table: u64 = payload as u64 + rel as u64;
    if table > len as u64 {
        return Err(table as usize);
    }
    check_run(len, table as usize, 4, 4 * count)?;
    plan_curve_nodes(blob, k, payload, table as usize, count, n)
}

/// Plan a curve stream (slots 9 and 10) over `frame_count` frames: for
/// every rotation, translation and scale node, where its header lies and
/// what each frame takes (a stored value, a new Hermite segment, or the
/// segment in force). A stream under 32 bytes is `TruncatedHeader`; the
/// first seek or read past the end is `TruncatedPayload` at its end.
pub fn plan_curve(blob: &[u8], codec: Codec, frame_count: u16, revised: bool) -> (r: Result<CurvePlan, AnimationError>)
    requires
        blob@.len() + 8 <= usize::MAX,
    ensures
        blob@.len() < 32 ==> r == Err::<CurvePlan, AnimationError>(
            AnimationError::TruncatedHeader { codec, want: 32, have: blob@.len() as usize },
        ),
        blob@.len() >= 32 ==> match curve_walk(blob@, frame_count as int) {
            Err(x) => r == Err::<CurvePlan, AnimationError>(
                AnimationError::TruncatedPayload { codec: Codec::Curve, want_end: x as usize, blob_size: blob@.len() as usize },
            ),
            Ok((rs, ts, ss)) => r matches Ok(p) && {
                &&& p.codec == codec
                &&& p.frame_count == frame_count
                &&& p.revised == revised
                &&& nodes_planned(p.rotations@, rs)
                &&& nodes_planned(p.translations@, ts)
                &&& nodes_planned(p.scales@, ss)
            },
        },
{
    let len = blob.len();
    if len < 32 {
        return Err(AnimationError::TruncatedHeader { codec, want: 32, have: len });
    }
    let payload = read_u32_le(blob, 20);
    let nr = blob[1] as usize;
    let trunc = |x: usize| -> (e: AnimationError)
        ensures
            e == (AnimationError::TruncatedPayload { codec: Codec::Curve, want_end: x, blob_size: len }),
        { AnimationError::TruncatedPayload { codec: Codec::Curve, want_end: x, blob_size: len } };
    let rotations = match check_run(len, 32, 4, 4 * nr) {
        Err(x) => {
            return Err(trunc(x));
        },
        Ok(()) => match plan_curve_nodes(blob, CurveKind::Rotation, payload, 32, nr, frame_count) {
            Err(x) => {
                return Err(trunc(x));
            },
            Ok(v) => v,
        },
    };
    let translations = match plan_curve_component(
        blob,
        CurveKind::Translation,
        payload,
        read_u32_le(blob, 12),
        blob[2] as usize,
        frame_count,
    ) {
        Err(x) => {
            return Err(trunc(x));
        },
        Ok(v) => v,
    };
    let scales = match plan_curve_component(
        blob,
        CurveKind::Scale,
        payload,
        read_u32_le(blob, 16),
        blob[3] as usize,
        frame_count,
    ) {
        Err(x) => {
            return Err(trunc(x));
        },
        Ok(v) => v,
    };
    Ok(CurvePlan { codec, frame_count, revised, rotations, translations, scales })
}

} // verus!
