//! Fixed-width integer encodings shared by the tag codecs: little- and
//! big-endian reads out of byte slices and appends onto byte vectors.
use vstd::prelude::*;

verus! {

/// Byte order of multi-byte integers.
#[derive(Debug, Clone, Copy, PartialEq, Eq, Structural)]
pub enum Endian {
    Le,
    Be,
}

/// The `u16` stored little-endian at `at`.
pub open spec fn le_u16(b: Seq<u8>, at: int) -> u16 {
    (b[at] as nat + 256 * (b[at + 1] as nat)) as u16
}

/// The `u16` stored big-endian at `at`.
pub open spec fn be_u16(b: Seq<u8>, at: int) -> u16 {
    (256 * (b[at] as nat) + b[at + 1] as nat) as u16
}

/// The `u32` stored little-endian at `at`.
pub open spec fn le_u32(b: Seq<u8>, at: int) -> u32 {
    (b[at] as nat + 256 * (b[at + 1] as nat) + 65536 * (b[at + 2] as nat) + 16777216 * (b[at + 3] as nat)) as u32
}

/// The `u32` stored big-endian at `at`.
pub open spec fn be_u32(b: Seq<u8>, at: int) -> u32 {
    (16777216 * (b[at] as nat) + 65536 * (b[at + 1] as nat) + 256 * (b[at + 2] as nat) + b[at + 3] as nat) as u32
}

/// The `u32` stored at `at` in byte order `e`.
pub open spec fn spec_u32_at(b: Seq<u8>, at: int, e: Endian) -> u32 {
    match e {
        Endian::Le => le_u32(b, at),
        Endian::Be => be_u32(b, at),
    }
}

/// Little-endian bytes of `v`.
pub open spec fn u32_le_bytes(v: u32) -> Seq<u8> {
    seq![(v % 256) as u8, ((v / 256) % 256) as u8, ((v / 65536) % 256) as u8, (v / 16777216) as u8]
}

/// Big-endian bytes of `v`.
pub open spec fn u32_be_bytes(v: u32) -> Seq<u8> {
    seq![(v / 16777216) as u8, ((v / 65536) % 256) as u8, ((v / 256) % 256) as u8, (v % 256) as u8]
}

/// Bytes of `v` in byte order `e`.
pub open spec fn u32_bytes(v: u32, e: Endian) -> Seq<u8> {
    match e {
        Endian::Le => u32_le_bytes(v),
        Endian::Be => u32_be_bytes(v),
    }
}

/// Little-endian bytes of `v`.
pub open spec fn u16_le_bytes(v: u16) -> Seq<u8> {
    seq![(v % 256) as u8, (v / 256) as u8]
}

/// Big-endian bytes of `v`.
pub open spec fn u16_be_bytes(v: u16) -> Seq<u8> {
    seq![(v / 256) as u8, (v % 256) as u8]
}

/// Read the little-endian `u16` at `at`.
pub fn read_u16_le(b: &[u8], at: usize) -> (r: u16)
    requires
        at + 2 <= b@.len(),
    ensures
        r == le_u16(b@, at as int),
{
    let lo = b[at];
    let hi = b[at + 1];
    assert((lo as u16) | ((hi as u16) << 8) == (lo as u32 + 256 * (hi as u32)) as u16) by (bit_vector);
    (lo as u16) | ((hi as u16) << 8)
}

/// Read the big-endian `u16` at `at`.
pub fn read_u16_be(b: &[u8], at: usize) -> (r: u16)
    requires
        at + 2 <= b@.len(),
    ensures
        r == be_u16(b@, at as int),
{
    let hi = b[at];
    let lo = b[at + 1];
    assert((lo as u16) | ((hi as u16) << 8) == (256 * (hi as u32) + lo as u32) as u16) by (bit_vector);
    (lo as u16) | ((hi as u16) << 8)
}

/// Read the little-endian `u32` at `at`.
pub fn read_u32_le(b: &[u8], at: usize) -> (r: u32)
    requires
        at + 4 <= b@.len(),
    ensures
        r == le_u32(b@, at as int),
{
    let b0 = b[at];
    let b1 = b[at + 1];
    let b2 = b[at + 2];
    let b3 = b[at + 3];
    assert((b0 as u32) | ((b1 as u32) << 8) | ((b2 as u32) << 16) | ((b3 as u32) << 24)
        == (b0 as u64 + 256 * (b1 as u64) + 65536 * (b2 as u64) + 16777216 * (b3 as u64)) as u32) by (bit_vector);
    (b0 as u32) | ((b1 as u32) << 8) | ((b2 as u32) << 16) | ((b3 as u32) << 24)
}

/// Read the big-endian `u32` at `at`.
pub fn read_u32_be(b: &[u8], at: usize) -> (r: u32)
    requires
        at + 4 <= b@.len(),
    ensures
        r == be_u32(b@, at as int),
{
    let b0 = b[at];
    let b1 = b[at + 1];
    let b2 = b[at + 2];
    let b3 = b[at + 3];
    assert((b3 as u32) | ((b2 as u32) << 8) | ((b1 as u32) << 16) | ((b0 as u32) << 24)
        == (16777216 * (b0 as u64) + 65536 * (b1 as u64) + 256 * (b2 as u64) + b3 as u64) as u32) by (bit_vector);
    (b3 as u32) | ((b2 as u32) << 8) | ((b1 as u32) << 16) | ((b0 as u32) << 24)
}

/// Read the `u32` at `at` in byte order `e`.
pub fn read_u32(b: &[u8], at: usize, e: Endian) -> (r: u32)
    requires
        at + 4 <= b@.len(),
    ensures
        r == spec_u32_at(b@, at as int, e),
{
    match e {
        Endian::Le => read_u32_le(b, at),
        Endian::Be => read_u32_be(b, at),
    }
}

/// The four bytes of a `u32`, by shifts and by division.
pub proof fn lemma_u32_byte_split(v: u32)
    ensures
        (v & 0xFF) as u8 == (v % 256) as u8,
        ((v >> 8) & 0xFF) as u8 == ((v / 256) % 256) as u8,
        ((v >> 16) & 0xFF) as u8 == ((v / 65536) % 256) as u8,
        (v >> 24) as u8 == (v / 16777216) as u8,
{
    assert((v & 0xFF) as u8 == (v % 256) as u8 && ((v >> 8) & 0xFF) as u8 == ((v / 256) % 256) as u8 && ((v >> 16)
        & 0xFF) as u8 == ((v / 65536) % 256) as u8 && (v >> 24) as u8 == (v / 16777216) as u8) by (bit_vector);
}

/// The four low bytes of a `u64`, by shifts and by division.
pub proof fn lemma_u64_low_bytes(v: u64)
    ensures
        (v & 0xFF) as u8 == (v % 256) as u8,
        ((v >> 8) & 0xFF) as u8 == ((v / 256) % 256) as u8,
        ((v >> 16) & 0xFF) as u8 == ((v / 65536) % 256) as u8,
        ((v >> 24) & 0xFF) as u8 == ((v / 16777216) % 256) as u8,
{
    assert((v & 0xFF) as u8 == (v % 256) as u8 && ((v >> 8) & 0xFF) as u8 == ((v / 256) % 256) as u8 && ((v >> 16)
        & 0xFF) as u8 == ((v / 65536) % 256) as u8 && ((v >> 24) & 0xFF) as u8 == ((v / 16777216) % 256) as u8)
        by (bit_vector);
}

/// Little-endian bytes of `v`.
pub fn u32_to_le(v: u32) -> (r: [u8; 4])
    ensures
        r@ == u32_le_bytes(v),
{
    proof {
        lemma_u32_byte_split(v);
    }
    let r = [(v & 0xFF) as u8, ((v >> 8) & 0xFF) as u8, ((v >> 16) & 0xFF) as u8, (v >> 24) as u8];
    assert(r@ =~= u32_le_bytes(v));
    r
}

/// Big-endian bytes of `v`.
pub fn u32_to_be(v: u32) -> (r: [u8; 4])
    ensures
        r@ == u32_be_bytes(v),
{
    proof {
        lemma_u32_byte_split(v);
    }
    let r = [(v >> 24) as u8, ((v >> 16) & 0xFF) as u8, ((v >> 8) & 0xFF) as u8, (v & 0xFF) as u8];
    assert(r@ =~= u32_be_bytes(v));
    r
}

/// Append `v` little-endian.
pub fn push_u32_le(out: &mut Vec<u8>, v: u32)
    ensures
        final(out)@ == old(out)@ + u32_le_bytes(v),
{
    let b = u32_to_le(v);
    out.push(b[0]);
    out.push(b[1]);
    out.push(b[2]);
    out.push(b[3]);
    assert(out@ =~= old(out)@ + u32_le_bytes(v));
}

/// Reading back the little-endian bytes of `v` gives `v`.
pub proof fn lemma_le_u32_roundtrip(v: u32)
    ensures
        le_u32(u32_le_bytes(v), 0) == v,
{
    let b = u32_le_bytes(v);
    assert(b[0] as nat + 256 * (b[1] as nat) + 65536 * (b[2] as nat) + 16777216 * (b[3] as nat) == v) by (nonlinear_arith)
        requires
            b[0] == (v % 256) as u8,
            b[1] == ((v / 256) % 256) as u8,
            b[2] == ((v / 65536) % 256) as u8,
            b[3] == (v / 16777216) as u8,
    ;
}

/// The little-endian bytes of the `u32` read at `at` are the four bytes
/// it was read from.
pub proof fn lemma_le_u32_bytes(b: Seq<u8>, at: int)
    requires
        0 <= at,
        at + 4 <= b.len(),
    ensures
        u32_le_bytes(le_u32(b, at)) == b.subrange(at, at + 4),
{
    let b0 = b[at];
    let b1 = b[at + 1];
    let b2 = b[at + 2];
    let b3 = b[at + 3];
    assert({
        let v = (b0 as nat + 256 * (b1 as nat) + 65536 * (b2 as nat) + 16777216 * (b3 as nat)) as u32;
        &&& (v % 256) as u8 == b0
        &&& ((v / 256) % 256) as u8 == b1
        &&& ((v / 65536) % 256) as u8 == b2
        &&& (v / 16777216) as u8 == b3
    }) by (bit_vector);
    assert(u32_le_bytes(le_u32(b, at)) =~= b.subrange(at, at + 4));
}

/// The big-endian bytes of the `u32` read at `at` are the four bytes it
/// was read from.
pub proof fn lemma_be_u32_bytes(b: Seq<u8>, at: int)
    requires
        0 <= at,
        at + 4 <= b.len(),
    ensures
        u32_be_bytes(be_u32(b, at)) == b.subrange(at, at + 4),
{
    let b0 = b[at];
    let b1 = b[at + 1];
    let b2 = b[at + 2];
    let b3 = b[at + 3];
    assert({
        let v = (16777216 * (b0 as nat) + 65536 * (b1 as nat) + 256 * (b2 as nat) + b3 as nat) as u32;
        &&& (v / 16777216) as u8 == b0
        &&& ((v / 65536) % 256) as u8 == b1
        &&& ((v / 256) % 256) as u8 == b2
        &&& (v % 256) as u8 == b3
    }) by (bit_vector);
    assert(u32_be_bytes(be_u32(b, at)) =~= b.subrange(at, at + 4));
}

/// Reading back the big-endian bytes of `v` gives `v`.
pub proof fn lemma_be_u32_roundtrip(v: u32)
    ensures
        be_u32(u32_be_bytes(v), 0) == v,
{
    let b = u32_be_bytes(v);
    assert(16777216 * (b[0] as nat) + 65536 * (b[1] as nat) + 256 * (b[2] as nat) + b[3] as nat == v) by (nonlinear_arith)
        requires
            b[3] == (v % 256) as u8,
            b[2] == ((v / 256) % 256) as u8,
            b[1] == ((v / 65536) % 256) as u8,
            b[0] == (v / 16777216) as u8,
    ;
}

/// The `u64` stored little-endian at `at`.
pub open spec fn le_u64(b: Seq<u8>, at: int) -> u64 {
    (le_u32(b, at) as nat + 4294967296 * (le_u32(b, at + 4) as nat)) as u64
}

/// Read the little-endian `u64` at `at`.
pub fn read_u64_le(b: &[u8], at: usize) -> (r: u64)
    requires
        at + 8 <= b@.len(),
    ensures
        r == le_u64(b@, at as int),
{
    let total = b.len();
    let lo = read_u32_le(b, at);
    let hi = read_u32_le(b, at + 4);
    assert((lo as u64) | ((hi as u64) << 32) == (lo as u64 + 4294967296 * (hi as u64)) as u64) by (bit_vector);
    (lo as u64) | ((hi as u64) << 32)
}

/// `bytes` lies in `body` at `pos`.
pub open spec fn starts_with(body: Seq<u8>, pos: int, bytes: Seq<u8>) -> bool {
    &&& 0 <= pos
    &&& pos + bytes.len() <= body.len()
    &&& body.subrange(pos, pos + bytes.len()) == bytes
}

/// What lies at `pos` splits into its parts.
pub proof fn lemma_starts_with_split(body: Seq<u8>, pos: int, a: Seq<u8>, b: Seq<u8>)
    requires
        starts_with(body, pos, a + b),
    ensures
        starts_with(body, pos, a),
        starts_with(body, pos + a.len(), b),
{
    assert(body.subrange(pos, pos + a.len()) =~= (a + b).subrange(0, a.len() as int));
    assert(body.subrange(pos + a.len(), pos + a.len() + b.len()) =~= (a + b).subrange(a.len() as int, (a.len() + b.len()) as int));
    assert((a + b).subrange(0, a.len() as int) =~= a);
    assert((a + b).subrange(a.len() as int, (a.len() + b.len()) as int) =~= b);
}

} // verus!
