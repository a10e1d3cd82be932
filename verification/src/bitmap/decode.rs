//! Decode one mip level of raw bitmap pixel bytes into RGBA8 (memory
//! order `[R, G, B, A]`).
//!
//! Single-channel formats expand with the preview convention (`a8` is
//! white with alpha, `y8` grey, `r8` red only); signed formats are
//! biased by +128 per 8-bit channel (+32768 for 16-bit channels);
//! floating-point formats clamp to `[0, 1]` and scale to 255, computed
//! here exactly in integer arithmetic from the IEEE-754 bit patterns.
//! Block-compressed BC1..BC5 blocks are decoded by `bcdec_rs`.
use vstd::prelude::*;
use vstd::arithmetic::power2::{lemma2_to64, lemma_pow2_pos, lemma_pow2_unfold, pow2};
use vstd::bits::{lemma_u64_shl_is_mul, lemma_u64_shr_is_div};
use vstd::slice::slice_subrange;

use super::format::{blocks_across, BitmapFormat};
use super::BitmapError;

verus! {

broadcast use vstd::array::group_array_axioms;

//==========================================================================
// Block decoders from `bcdec_rs`
//==========================================================================

/// RGBA8 texels (row pitch 16 bytes) that `bcdec_rs::bc1` decodes from
/// an 8-byte BC1 block.
pub uninterp spec fn bc1_block_rgba(block: Seq<u8>) -> Seq<u8>;

/// RGBA8 texels (row pitch 16 bytes) that `bcdec_rs::bc2` decodes from
/// a 16-byte BC2 block.
pub uninterp spec fn bc2_block_rgba(block: Seq<u8>) -> Seq<u8>;

/// RGBA8 texels (row pitch 16 bytes) that `bcdec_rs::bc3` decodes from
/// a 16-byte BC3 block.
pub uninterp spec fn bc3_block_rgba(block: Seq<u8>) -> Seq<u8>;

/// R8 texels (row pitch 4 bytes, unsigned) that `bcdec_rs::bc4`
/// decodes from an 8-byte BC4 block.
pub uninterp spec fn bc4_block_r8(block: Seq<u8>) -> Seq<u8>;

/// RG8 texels (row pitch 8 bytes, unsigned) that `bcdec_rs::bc5`
/// decodes from a 16-byte BC5 block.
pub uninterp spec fn bc5_block_rg8(block: Seq<u8>) -> Seq<u8>;

/// Calls `bcdec_rs::bc1` on an 8-byte block into a 64-byte staging
/// buffer with a 16-byte row pitch. Trusted: the staging bytes are the
/// named result of the crate's decoder on this block.
#[verifier::external_body]
fn bcdec_bc1(block: &[u8]) -> (r: [u8; 64])
    requires
        block@.len() == 8,
    ensures
        r@ == bc1_block_rgba(block@),
{
    let mut staging = [0u8; 64];
    bcdec_rs::bc1(block, &mut staging, 16);
    staging
}

/// Calls `bcdec_rs::bc2` on a 16-byte block into a 64-byte staging
/// buffer with a 16-byte row pitch. Trusted as for `bcdec_bc1`.
#[verifier::external_body]
fn bcdec_bc2(block: &[u8]) -> (r: [u8; 64])
    requires
        block@.len() == 16,
    ensures
        r@ == bc2_block_rgba(block@),
{
    let mut staging = [0u8; 64];
    bcdec_rs::bc2(block, &mut staging, 16);
    staging
}

/// Calls `bcdec_rs::bc3` on a 16-byte block into a 64-byte staging
/// buffer with a 16-byte row pitch. Trusted as for `bcdec_bc1`.
#[verifier::external_body]
fn bcdec_bc3(block: &[u8]) -> (r: [u8; 64])
    requires
        block@.len() == 16,
    ensures
        r@ == bc3_block_rgba(block@),
{
    let mut staging = [0u8; 64];
    bcdec_rs::bc3(block, &mut staging, 16);
    staging
}

/// Calls `bcdec_rs::bc4` (unsigned) on an 8-byte block into a 16-byte
/// R8 staging buffer with a 4-byte row pitch. Trusted as for `bcdec_bc1`.
#[verifier::external_body]
fn bcdec_bc4(block: &[u8]) -> (r: [u8; 16])
    requires
        block@.len() == 8,
    ensures
        r@ == bc4_block_r8(block@),
{
    let mut staging = [0u8; 16];
    bcdec_rs::bc4(block, &mut staging, 4, false);
    staging
}

/// Calls `bcdec_rs::bc5` (unsigned) on a 16-byte block into a 32-byte
/// RG8 staging buffer with an 8-byte row pitch. Trusted as for
/// `bcdec_bc1`.
#[verifier::external_body]
fn bcdec_bc5(block: &[u8]) -> (r: [u8; 32])
    requires
        block@.len() == 16,
    ensures
        r@ == bc5_block_rg8(block@),
{
    let mut staging = [0u8; 32];
    bcdec_rs::bc5(block, &mut staging, 8, false);
    staging
}

//==========================================================================
// Specification of the decoded pixels
//==========================================================================

/// Signed byte re-biased to unsigned: `(b as i8) + 128`.
pub open spec fn bias(b: u8) -> u8 {
    ((b as nat + 128) % 256) as u8
}

/// Little-endian `u16` from two bytes.
pub open spec fn le16(lo: u8, hi: u8) -> u16 {
    (lo as nat + 256 * (hi as nat)) as u16
}

/// Little-endian `u32` from four bytes.
pub open spec fn le32(b0: u8, b1: u8, b2: u8, b3: u8) -> u32 {
    (b0 as nat + 256 * (b1 as nat) + 65536 * (b2 as nat) + 16777216 * (b3 as nat)) as u32
}

/// Numerator over `2^25` of a half-float's value clamped to `[0, 1]`
/// (NaN counts as 0).
pub open spec fn half_unit_numerator(h: u16) -> nat {
    let sign = h / 32768;
    let exp = (h / 1024) % 32;
    let mant = h % 1024;
    if exp == 31 {
        if mant != 0 || sign == 1 { 0 } else { 33554432 }
    } else if sign == 1 {
        0
    } else if exp == 0 {
        2 * mant as nat
    } else {
        let n = (1024 + mant as nat) * pow2(exp as nat);
        if n > 33554432 { 33554432 } else { n }
    }
}

/// A half-float channel clamped to `[0, 1]`, scaled to 255 and rounded
/// half up: `floor(255 * x + 1/2)`.
pub open spec fn half_to_unorm8(h: u16) -> u8 {
    ((255 * half_unit_numerator(h) + 16777216) / 33554432) as u8
}

/// Bit position from which `rne24` keeps 24 significant bits of `x`:
/// the least `d >= start` with `x / 2^d < 2^24`.
pub open spec fn rne24_shift(x: nat, d: nat) -> nat
    decreases 64 - d,
{
    if d >= 64 || x / pow2(d) < pow2(24) {
        d
    } else {
        rne24_shift(x, d + 1)
    }
}

/// `x` rounded to 24 significant bits, ties to even (the rounding of
/// an IEEE-754 single-precision operation, as a numerator over a fixed
/// power of two).
pub open spec fn rne24(x: nat) -> nat {
    let d = rne24_shift(x, 0);
    if d == 0 {
        x
    } else {
        let q = x / pow2(d);
        let r = x % pow2(d);
        let half = pow2((d - 1) as nat);
        let up = r > half || (r == half && q % 2 == 1);
        (q + if up { 1nat } else { 0nat }) * pow2(d)
    }
}

/// A single-precision channel (bit pattern `bits`) clamped to `[0, 1]`
/// (NaN counts as 0) and converted as `(x * 255.0 + 0.5) as u8` in
/// single precision: the product and the sum are each rounded to 24
/// significant bits, then the sum is truncated. Values in
/// `[2^-10, 1)` are `n / 2^33` with `n` below `2^33`; smaller values
/// give 0 and values of at least 1 give 255.
pub open spec fn f32_to_unorm8(bits: u32) -> u8 {
    let sign = bits / 0x8000_0000;
    let e = (bits / 0x80_0000) % 256;
    let m = bits % 0x80_0000;
    if e == 255 {
        if m != 0 || sign == 1 { 0 } else { 255 }
    } else if sign == 1 {
        0
    } else if e >= 127 {
        255
    } else if e < 117 {
        0
    } else {
        let n: nat = ((m + 0x80_0000) * pow2((e - 117) as nat)) as nat;
        let p = rne24(255 * n);
        let s = rne24(p + 0x1_0000_0000);
        (s / 0x2_0000_0000) as u8
    }
}

/// Channel `c` of pixel `p` for the per-pixel (uncompressed) formats.
pub open spec fn unpacked_channel(f: BitmapFormat, input: Seq<u8>, p: int, c: int) -> u8 {
    match f {
        BitmapFormat::A8 => if c < 3 { 255 } else { input[p] },
        BitmapFormat::Y8 => if c < 3 { input[p] } else { 255 },
        BitmapFormat::R8 => if c == 0 { input[p] } else if c < 3 { 0 } else { 255 },
        BitmapFormat::Ay8 => input[p],
        BitmapFormat::A8y8 => if c < 3 { input[2 * p] } else { input[2 * p + 1] },
        BitmapFormat::A4r4g4b4 => {
            let lo = input[2 * p];
            let hi = input[2 * p + 1];
            let n = if c == 0 { hi % 16 } else if c == 1 { lo / 16 } else if c == 2 { lo % 16 } else { hi / 16 };
            (n * 17) as u8
        },
        BitmapFormat::X8r8g8b8 => if c == 3 { 255 } else { input[4 * p + 2 - c] },
        BitmapFormat::A8r8g8b8 => if c == 3 { input[4 * p + 3] } else { input[4 * p + 2 - c] },
        BitmapFormat::V8u8 => if c == 0 { bias(input[2 * p + 1]) } else if c == 1 { bias(input[2 * p]) }
            else if c == 2 { 128 } else { 255 },
        BitmapFormat::Q8w8v8u8 => bias(input[4 * p + c]),
        BitmapFormat::A16b16g16r16 => input[8 * p + 2 * c + 1],
        BitmapFormat::Signedr16g16b16a16 => bias(input[8 * p + 2 * c + 1]),
        BitmapFormat::Abgrfp16 => half_to_unorm8(le16(input[8 * p + 2 * c], input[8 * p + 2 * c + 1])),
        BitmapFormat::Abgrfp32 => f32_to_unorm8(le32(input[16 * p + 4 * c], input[16 * p + 4 * c + 1],
            input[16 * p + 4 * c + 2], input[16 * p + 4 * c + 3])),
        _ => 0,
    }
}

/// One entry of the 8-value palette of a BC4-style alpha sub-block
/// with endpoints `v0`, `v1`.
pub open spec fn bc4_palette(v0: u8, v1: u8, idx: int) -> u8 {
    if idx == 0 {
        v0
    } else if idx == 1 {
        v1
    } else if v0 > v1 {
        (((8 - idx) * v0 + (idx - 1) * v1) / 7) as u8
    } else if idx <= 5 {
        (((6 - idx) * v0 + (idx - 1) * v1) / 5) as u8
    } else if idx == 6 {
        0
    } else {
        255
    }
}

/// The 48-bit index field (bytes 2..8, little-endian) of a BC4-style
/// sub-block starting at `at`.
pub open spec fn bc4_index_field(block: Seq<u8>, at: int) -> u64 {
    (block[at + 2] as u64) | ((block[at + 3] as u64) << 8u64) | ((block[at + 4] as u64) << 16u64)
        | ((block[at + 5] as u64) << 24u64) | ((block[at + 6] as u64) << 32u64)
        | ((block[at + 7] as u64) << 40u64)
}

/// The palette of a BC4-style sub-block interpolates its endpoints. With
/// `v0 > v1`, entries 2..7 step from `v0` toward `v1`, never rising, each
/// the weighted average `((8 - i) * v0 + (i - 1) * v1) / 7` rounded down
/// (entry 2 nearest `v0`). With `v0 <= v1`, entries 2..5 are
/// `((6 - i) * v0 + (i - 1) * v1) / 5` rounded down, rising from `v0`
/// toward `v1`, and entries 6 and 7 are 0 and 255.
pub proof fn lemma_bc4_palette_interpolates(v0: u8, v1: u8, i: int)
    requires
        2 <= i <= 7,
    ensures
        bc4_palette(v0, v1, 0) == v0,
        bc4_palette(v0, v1, 1) == v1,
        v0 > v1 ==> {
            &&& v1 <= bc4_palette(v0, v1, i) <= v0
            &&& 7 * bc4_palette(v0, v1, i) <= (8 - i) * v0 + (i - 1) * v1 < 7 * bc4_palette(v0, v1, i) + 7
            &&& i < 7 ==> bc4_palette(v0, v1, i + 1) <= bc4_palette(v0, v1, i)
        },
        v0 <= v1 && i <= 5 ==> {
            &&& v0 <= bc4_palette(v0, v1, i) <= v1
            &&& 5 * bc4_palette(v0, v1, i) <= (6 - i) * v0 + (i - 1) * v1 < 5 * bc4_palette(v0, v1, i) + 5
            &&& i < 5 ==> bc4_palette(v0, v1, i) <= bc4_palette(v0, v1, i + 1)
        },
        v0 <= v1 ==> bc4_palette(v0, v1, 6) == 0 && bc4_palette(v0, v1, 7) == 255,
{
    let a = v0 as int;
    let b = v1 as int;
    if v0 > v1 {
        assert forall|j: int| 2 <= j <= 7 implies {
            let n = (8 - j) * a + (j - 1) * b;
            &&& 7 * b <= n <= 7 * a
            &&& #[trigger] bc4_palette(v0, v1, j) as int == n / 7
        } by {
            let n = (8 - j) * a + (j - 1) * b;
            assert(n == 7 * b + (8 - j) * (a - b) && n == 7 * a - (j - 1) * (a - b)) by (nonlinear_arith)
                requires
                    n == (8 - j) * a + (j - 1) * b,
            ;
            assert(0 <= (8 - j) * (a - b)) by (nonlinear_arith)
                requires
                    j <= 7,
                    a > b,
            ;
            assert(0 <= (j - 1) * (a - b)) by (nonlinear_arith)
                requires
                    j >= 2,
                    a > b,
            ;
            assert(0 <= n / 7 <= 255);
        }
        if i < 7 {
            let n = (8 - i) * a + (i - 1) * b;
            let m = (8 - (i + 1)) * a + i * b;
            assert(m == n - (a - b)) by (nonlinear_arith)
                requires
                    n == (8 - i) * a + (i - 1) * b,
                    m == (8 - (i + 1)) * a + i * b,
            ;
        }
    } else {
        assert forall|j: int| 2 <= j <= 5 implies {
            let n = (6 - j) * a + (j - 1) * b;
            &&& 5 * a <= n <= 5 * b
            &&& #[trigger] bc4_palette(v0, v1, j) as int == n / 5
        } by {
            let n = (6 - j) * a + (j - 1) * b;
            assert(n == 5 * a + (j - 1) * (b - a) && n == 5 * b - (6 - j) * (b - a)) by (nonlinear_arith)
                requires
                    n == (6 - j) * a + (j - 1) * b,
            ;
            assert(0 <= (6 - j) * (b - a)) by (nonlinear_arith)
                requires
                    j <= 5,
                    a <= b,
            ;
            assert(0 <= (j - 1) * (b - a)) by (nonlinear_arith)
                requires
                    j >= 2,
                    a <= b,
            ;
            assert(0 <= n / 5 <= 255);
        }
        if i < 5 {
            let n = (6 - i) * a + (i - 1) * b;
            let m = (6 - (i + 1)) * a + i * b;
            assert(m == n + (b - a)) by (nonlinear_arith)
                requires
                    n == (6 - i) * a + (i - 1) * b,
                    m == (6 - (i + 1)) * a + i * b,
            ;
        }
    }
}

/// Palette value of texel `t` (0..16) of the BC4-style sub-block at `at`.
pub open spec fn bc4_texel(block: Seq<u8>, at: int, t: int) -> u8 {
    let idx = (bc4_index_field(block, at) >> ((3 * t) as u64)) & 7u64;
    bc4_palette(block[at], block[at + 1], idx as int)
}

/// RGBA8 texels of a `dxn_mono_alpha` block: luminance from the first
/// sub-block replicated to RGB, alpha from the second.
pub open spec fn mono_alpha_block_rgba(block: Seq<u8>) -> Seq<u8> {
    Seq::new(64, |o: int| if o % 4 < 3 { bc4_texel(block, 0, o / 4) } else { bc4_texel(block, 8, o / 4) })
}

/// RGBA8 texels of a block-compressed format's block `k`.
pub open spec fn block_texels(f: BitmapFormat, input: Seq<u8>, k: int) -> Seq<u8> {
    match f {
        BitmapFormat::Dxt1 => bc1_block_rgba(input.subrange(8 * k, 8 * k + 8)),
        BitmapFormat::Dxt3 => bc2_block_rgba(input.subrange(16 * k, 16 * k + 16)),
        BitmapFormat::Dxt5 => bc3_block_rgba(input.subrange(16 * k, 16 * k + 16)),
        BitmapFormat::Dxt5a => {
            let r = bc4_block_r8(input.subrange(8 * k, 8 * k + 8));
            Seq::new(64, |o: int| if o % 4 < 3 { r[o / 4] } else { 255 })
        },
        BitmapFormat::Dxn => {
            let rg = bc5_block_rg8(input.subrange(16 * k, 16 * k + 16));
            Seq::new(64, |o: int| if o % 4 < 2 { rg[2 * (o / 4) + o % 4] } else if o % 4 == 2 { 128 } else { 255 })
        },
        _ => mono_alpha_block_rgba(input.subrange(16 * k, 16 * k + 16)),
    }
}

/// Channel `c` of pixel `(px, py)` for a block-compressed format.
pub open spec fn block_channel(f: BitmapFormat, width: nat, input: Seq<u8>, px: int, py: int, c: int) -> u8 {
    let k = (py / 4) * (blocks_across(width) as int) + px / 4;
    block_texels(f, input, k)[((py % 4) * 4 + px % 4) * 4 + c]
}

/// Byte `q` of the RGBA8 decoding of a `width` x `height` level.
pub open spec fn decoded_byte(f: BitmapFormat, width: nat, height: nat, input: Seq<u8>, q: int) -> u8 {
    let p = q / 4;
    if f.spec_is_compressed() {
        block_channel(f, width, input, p % (width as int), p / (width as int), q % 4)
    } else {
        unpacked_channel(f, input, p, q % 4)
    }
}

/// The RGBA8 decoding of a `width` x `height` level.
pub open spec fn decoded_level(f: BitmapFormat, width: nat, height: nat, input: Seq<u8>) -> Seq<u8> {
    Seq::new(4 * (width * height), |q: int| decoded_byte(f, width, height, input, q))
}

} // verus!

verus! {

//==========================================================================
// Floating-point channels, in integer arithmetic
//==========================================================================

/// `x` rounded to 24 significant bits, ties to even.
fn rne24_exec(x: u64) -> (r: u64)
    requires
        x < 0x4_0000_0000_0000,
    ensures
        r == rne24(x as nat),
        r <= 2 * x,
{
    proof {
        lemma2_to64();
        lemma_rne24_le_double(x as nat);
    }
    let mut d: u64 = 0;
    while d < 64 && (x >> d) >= 0x100_0000
        invariant
            d <= 26,
            x < 0x4_0000_0000_0000,
            rne24_shift(x as nat, 0) == rne24_shift(x as nat, d as nat),
            pow2(24) == 0x100_0000,
            pow2(26) == 0x400_0000,
        decreases 64 - d,
    {
        proof {
            lemma_u64_shr_is_div(x, d);
            if d >= 26 {
                if d > 26 {
                    vstd::arithmetic::power2::lemma_pow2_strictly_increases(26, d as nat);
                }
                let pd = pow2(d as nat);
                assert((x as nat) / pd < 0x100_0000) by (nonlinear_arith)
                    requires
                        pd >= 0x400_0000,
                        x < 0x4_0000_0000_0000,
                ;
            }
        }
        d = d + 1;
    }
    proof {
        if d < 64 {
            lemma_u64_shr_is_div(x, d);
        }
    }
    if d == 0 {
        return x;
    }
    proof {
        vstd::arithmetic::power2::lemma_pow2_strictly_increases(d as nat, 64);
        lemma_u64_shl_is_mul(1, d);
        lemma_pow2_unfold(d as nat);
        lemma_shift_prev(x as nat, 0);
        let pd = pow2(d as nat);
        let ph = pow2((d - 1) as nat);
        assert((x as nat) / pd == ((x as nat) / ph) / 2) by (nonlinear_arith)
            requires
                pd == 2 * ph,
                ph > 0,
        ;
        assert((x as nat) / pd < 0x100_0000);
    }
    let pd: u64 = 1u64 << d;
    let q = x / pd;
    let rem = x % pd;
    let half = pd / 2;
    let up = rem > half || (rem == half && q % 2 == 1);
    proof {
        assert((q + 1) * pd <= 0x100_0001 * 0x400_0000) by (nonlinear_arith)
            requires
                q < 0x100_0000,
                pd <= 0x400_0000,
        ;
    }
    if up { (q + 1) * pd } else { q * pd }
}

proof fn lemma_shift_prev(x: nat, s: nat)
    ensures
        rne24_shift(x, s) >= s,
        rne24_shift(x, s) > s ==> x / pow2((rne24_shift(x, s) - 1) as nat) >= pow2(24),
    decreases 64 - s,
{
    if s >= 64 || x / pow2(s) < pow2(24) {
    } else {
        lemma_shift_prev(x, s + 1);
    }
}

proof fn lemma_rne24_le_double(x: nat)
    ensures
        rne24(x) <= 2 * x,
{
    let d = rne24_shift(x, 0);
    if d > 0 {
        lemma_shift_prev(x, 0);
        lemma_pow2_unfold(d);
        lemma_pow2_pos((d - 1) as nat);
        let pd = pow2(d);
        let ph = pow2((d - 1) as nat);
        let q = x / pd;
        assert(q == (x / ph) / 2) by (nonlinear_arith)
            requires
                pd == 2 * ph,
                ph > 0,
                q == x / pd,
        ;
        lemma2_to64();
        assert(q >= 1);
        assert(q * pd <= x) by (nonlinear_arith)
            requires
                pd > 0,
                q == x / pd,
        ;
        assert((q + 1) * pd <= 2 * x) by (nonlinear_arith)
            requires
                q >= 1,
                q * pd <= x,
        ;
    }
}

/// Half-float channel converted to an 8-bit unit value.
fn half_to_u8(h: u16) -> (r: u8)
    ensures
        r == half_to_unorm8(h),
{
    let sign = h >> 15;
    let exp = (h >> 10) & 0x1F;
    let mant = h & 0x3FF;
    assert(h >> 15 == h / 32768) by (bit_vector);
    assert((h >> 10) & 0x1F == (h / 1024) % 32) by (bit_vector);
    assert(h & 0x3FF == h % 1024) by (bit_vector);
    let n: u64 = if exp == 31 {
        if mant != 0 || sign == 1 { 0 } else { 33554432 }
    } else if sign == 1 {
        0
    } else if exp == 0 {
        2 * mant as u64
    } else {
        let base = 1024 + mant as u64;
        proof {
            lemma2_to64();
            vstd::arithmetic::power2::lemma_pow2_strictly_increases(exp as nat, 31);
            assert(base * pow2(exp as nat) <= 2048 * 0x8000_0000) by (nonlinear_arith)
                requires
                    base < 2048,
                    pow2(exp as nat) < 0x8000_0000,
            ;
            lemma_u64_shl_is_mul(base, exp as u64);
        }
        let v = base << (exp as u64);
        if v > 33554432 { 33554432 } else { v }
    };
    assert(n == half_unit_numerator(h));
    ((255 * n + 16777216) / 33554432) as u8
}

/// Single-precision channel (bit pattern) converted to an 8-bit unit
/// value.
fn f32_bits_to_u8(bits: u32) -> (r: u8)
    ensures
        r == f32_to_unorm8(bits),
{
    let sign = bits >> 31;
    let e = (bits >> 23) & 0xFF;
    let m = bits & 0x7F_FFFF;
    assert(bits >> 31 == bits / 0x8000_0000) by (bit_vector);
    assert((bits >> 23) & 0xFF == (bits / 0x80_0000) % 256) by (bit_vector);
    assert(bits & 0x7F_FFFF == bits % 0x80_0000) by (bit_vector);
    if e == 255 {
        if m != 0 || sign == 1 { 0 } else { 255 }
    } else if sign == 1 {
        0
    } else if e >= 127 {
        255
    } else if e < 117 {
        0
    } else {
        let base = m as u64 + 0x80_0000;
        let sh = (e - 117) as u64;
        proof {
            lemma2_to64();
            vstd::arithmetic::power2::lemma_pow2_strictly_increases(sh as nat, 10);
            assert(base * pow2(sh as nat) < 0x100_0000 * 0x400) by (nonlinear_arith)
                requires
                    base < 0x100_0000,
                    pow2(sh as nat) < 0x400,
            ;
            lemma_u64_shl_is_mul(base, sh);
        }
        let n = base << sh;
        let p = rne24_exec(255 * n);
        let s = rne24_exec(p + 0x1_0000_0000);
        (s / 0x2_0000_0000) as u8
    }
}

} // verus!

verus! {

//==========================================================================
// Per-pixel formats
//==========================================================================

/// The four RGBA8 channels of pixel `p` of a per-pixel format.
pub open spec fn unpacked_pixel(f: BitmapFormat, input: Seq<u8>, p: int) -> Seq<u8> {
    Seq::new(4, |c: int| unpacked_channel(f, input, p, c))
}

/// `a8`: `(255, 255, 255, a)`.
fn decode_a8(input: &[u8], p: usize) -> (r: [u8; 4])
    requires
        (p + 1) * 1 <= input@.len() <= usize::MAX,
    ensures
        r@ == unpacked_pixel(BitmapFormat::A8, input@, p as int),
{
    let r = [255, 255, 255, input[p]];
    assert(r@ =~= unpacked_pixel(BitmapFormat::A8, input@, p as int));
    r
}

/// `y8`: luminance replicated to RGB, opaque.
fn decode_y8(input: &[u8], p: usize) -> (r: [u8; 4])
    requires
        (p + 1) * 1 <= input@.len() <= usize::MAX,
    ensures
        r@ == unpacked_pixel(BitmapFormat::Y8, input@, p as int),
{
    let y = input[p];
    let r = [y, y, y, 255];
    assert(r@ =~= unpacked_pixel(BitmapFormat::Y8, input@, p as int));
    r
}

/// `r8`: red only, opaque.
fn decode_r8(input: &[u8], p: usize) -> (r: [u8; 4])
    requires
        (p + 1) * 1 <= input@.len() <= usize::MAX,
    ensures
        r@ == unpacked_pixel(BitmapFormat::R8, input@, p as int),
{
    let r = [input[p], 0, 0, 255];
    assert(r@ =~= unpacked_pixel(BitmapFormat::R8, input@, p as int));
    r
}

/// `ay8`: the byte in all four channels.
fn decode_ay8(input: &[u8], p: usize) -> (r: [u8; 4])
    requires
        (p + 1) * 1 <= input@.len() <= usize::MAX,
    ensures
        r@ == unpacked_pixel(BitmapFormat::Ay8, input@, p as int),
{
    let v = input[p];
    let r = [v, v, v, v];
    assert(r@ =~= unpacked_pixel(BitmapFormat::Ay8, input@, p as int));
    r
}

/// `a8y8`: memory `[Y, A]`; Y replicated to RGB.
fn decode_a8y8(input: &[u8], p: usize) -> (r: [u8; 4])
    requires
        (p + 1) * 2 <= input@.len() <= usize::MAX,
    ensures
        r@ == unpacked_pixel(BitmapFormat::A8y8, input@, p as int),
{
    let y = input[2 * p];
    let a = input[2 * p + 1];
    let r = [y, y, y, a];
    assert(r@ =~= unpacked_pixel(BitmapFormat::A8y8, input@, p as int));
    r
}

/// `a4r4g4b4`: little-endian `AAAA RRRR GGGG BBBB`; each nibble
/// widened by `n * 0x11`.
fn decode_a4r4g4b4(input: &[u8], p: usize) -> (r: [u8; 4])
    requires
        (p + 1) * 2 <= input@.len() <= usize::MAX,
    ensures
        r@ == unpacked_pixel(BitmapFormat::A4r4g4b4, input@, p as int),
{
    let lo = input[2 * p];
    let hi = input[2 * p + 1];
    let v: u16 = (lo as u16) | ((hi as u16) << 8);
    let a = ((v >> 12) & 0xF) as u8;
    let rr = ((v >> 8) & 0xF) as u8;
    let g = ((v >> 4) & 0xF) as u8;
    let b = (v & 0xF) as u8;
    assert(((((lo as u16) | ((hi as u16) << 8)) >> 12) & 0xF) == hi / 16) by (bit_vector);
    assert(((((lo as u16) | ((hi as u16) << 8)) >> 8) & 0xF) == hi % 16) by (bit_vector);
    assert(((((lo as u16) | ((hi as u16) << 8)) >> 4) & 0xF) == lo / 16) by (bit_vector);
    assert((((lo as u16) | ((hi as u16) << 8)) & 0xF) == lo % 16) by (bit_vector);
    let r = [rr * 0x11, g * 0x11, b * 0x11, a * 0x11];
    assert(r@ =~= unpacked_pixel(BitmapFormat::A4r4g4b4, input@, p as int));
    r
}

/// `x8r8g8b8`: memory `[B, G, R, X]`; alpha forced opaque.
fn decode_x8r8g8b8(input: &[u8], p: usize) -> (r: [u8; 4])
    requires
        (p + 1) * 4 <= input@.len() <= usize::MAX,
    ensures
        r@ == unpacked_pixel(BitmapFormat::X8r8g8b8, input@, p as int),
{
    let r = [input[4 * p + 2], input[4 * p + 1], input[4 * p], 255];
    assert(r@ =~= unpacked_pixel(BitmapFormat::X8r8g8b8, input@, p as int));
    r
}

/// `a8r8g8b8`: memory `[B, G, R, A]`.
fn decode_a8r8g8b8(input: &[u8], p: usize) -> (r: [u8; 4])
    requires
        (p + 1) * 4 <= input@.len() <= usize::MAX,
    ensures
        r@ == unpacked_pixel(BitmapFormat::A8r8g8b8, input@, p as int),
{
    let r = [input[4 * p + 2], input[4 * p + 1], input[4 * p], input[4 * p + 3]];
    assert(r@ =~= unpacked_pixel(BitmapFormat::A8r8g8b8, input@, p as int));
    r
}

/// Signed byte plus 128.
fn bias_u8(b: u8) -> (r: u8)
    ensures
        r == bias(b),
{
    let v: i16 = (b as i8) as i16 + 128;
    assert(((b as i8) as i16) + 128 == (b ^ 0x80u8) as i16) by (bit_vector);
    assert(((b ^ 0x80u8) as i16) as u8 == ((b as u32 + 128) % 256) as u8) by (bit_vector);
    v as u8
}

/// `v8u8`: memory `[U, V]`; output `(V + 128, U + 128, 128, 255)`.
fn decode_v8u8(input: &[u8], p: usize) -> (r: [u8; 4])
    requires
        (p + 1) * 2 <= input@.len() <= usize::MAX,
    ensures
        r@ == unpacked_pixel(BitmapFormat::V8u8, input@, p as int),
{
    let u = input[2 * p];
    let v = input[2 * p + 1];
    let r = [bias_u8(v), bias_u8(u), 128, 255];
    assert(r@ =~= unpacked_pixel(BitmapFormat::V8u8, input@, p as int));
    r
}

/// `q8w8v8u8`: memory `[U, V, W, Q]`, each biased by 128.
fn decode_q8w8v8u8(input: &[u8], p: usize) -> (r: [u8; 4])
    requires
        (p + 1) * 4 <= input@.len() <= usize::MAX,
    ensures
        r@ == unpacked_pixel(BitmapFormat::Q8w8v8u8, input@, p as int),
{
    let r = [bias_u8(input[4 * p]), bias_u8(input[4 * p + 1]), bias_u8(input[4 * p + 2]), bias_u8(input[4 * p + 3])];
    assert(r@ =~= unpacked_pixel(BitmapFormat::Q8w8v8u8, input@, p as int));
    r
}

/// `a16b16g16r16`: four little-endian `u16` `[R, G, B, A]`; high bytes.
fn decode_a16b16g16r16(input: &[u8], p: usize) -> (r: [u8; 4])
    requires
        (p + 1) * 8 <= input@.len() <= usize::MAX,
    ensures
        r@ == unpacked_pixel(BitmapFormat::A16b16g16r16, input@, p as int),
{
    let r = [input[8 * p + 1], input[8 * p + 3], input[8 * p + 5], input[8 * p + 7]];
    assert(r@ =~= unpacked_pixel(BitmapFormat::A16b16g16r16, input@, p as int));
    r
}

/// High byte of a little-endian `i16` biased by 32768.
fn signed16_high(lo: u8, hi: u8) -> (r: u8)
    ensures
        r == bias(hi),
{
    let u: u16 = (lo as u16) | ((hi as u16) << 8);
    let v = u as i16;
    let w: i32 = v as i32 + 32768;
    assert(((u as i16) as i32) + 32768 == ((u ^ 0x8000u16) as i32)) by (bit_vector);
    assert(w >> 8 == ((u ^ 0x8000u16) >> 8) as i32) by (bit_vector)
        requires
            w == ((u ^ 0x8000u16) as i32),
    ;
    assert((((u ^ 0x8000u16) >> 8) as i32) as u8 == ((hi as u32 + 128) % 256) as u8) by (bit_vector)
        requires
            u == (lo as u16) | ((hi as u16) << 8),
    ;
    (w >> 8) as u8
}

/// `signedr16g16b16a16`: four little-endian `i16` `[R, G, B, A]`,
/// biased by 32768; high bytes.
fn decode_signedr16g16b16a16(input: &[u8], p: usize) -> (r: [u8; 4])
    requires
        (p + 1) * 8 <= input@.len() <= usize::MAX,
    ensures
        r@ == unpacked_pixel(BitmapFormat::Signedr16g16b16a16, input@, p as int),
{
    let r = [
        signed16_high(input[8 * p], input[8 * p + 1]),
        signed16_high(input[8 * p + 2], input[8 * p + 3]),
        signed16_high(input[8 * p + 4], input[8 * p + 5]),
        signed16_high(input[8 * p + 6], input[8 * p + 7]),
    ];
    assert(r@ =~= unpacked_pixel(BitmapFormat::Signedr16g16b16a16, input@, p as int));
    r
}

/// Little-endian `u16`.
fn read_le16(lo: u8, hi: u8) -> (r: u16)
    ensures
        r == le16(lo, hi),
{
    assert((lo as u16) | ((hi as u16) << 8) == (lo as u32 + 256 * (hi as u32)) as u16) by (bit_vector);
    (lo as u16) | ((hi as u16) << 8)
}

/// Little-endian `u32`.
fn read_le32(b0: u8, b1: u8, b2: u8, b3: u8) -> (r: u32)
    ensures
        r == le32(b0, b1, b2, b3),
{
    assert((b0 as u32) | ((b1 as u32) << 8) | ((b2 as u32) << 16) | ((b3 as u32) << 24)
        == (b0 as u64 + 256 * (b1 as u64) + 65536 * (b2 as u64) + 16777216 * (b3 as u64)) as u32) by (bit_vector);
    (b0 as u32) | ((b1 as u32) << 8) | ((b2 as u32) << 16) | ((b3 as u32) << 24)
}

/// `abgrfp16`: four half floats `[R, G, B, A]`, clamped and scaled.
fn decode_abgrfp16(input: &[u8], p: usize) -> (r: [u8; 4])
    requires
        (p + 1) * 8 <= input@.len() <= usize::MAX,
    ensures
        r@ == unpacked_pixel(BitmapFormat::Abgrfp16, input@, p as int),
{
    let r = [
        half_to_u8(read_le16(input[8 * p], input[8 * p + 1])),
        half_to_u8(read_le16(input[8 * p + 2], input[8 * p + 3])),
        half_to_u8(read_le16(input[8 * p + 4], input[8 * p + 5])),
        half_to_u8(read_le16(input[8 * p + 6], input[8 * p + 7])),
    ];
    assert(r@ =~= unpacked_pixel(BitmapFormat::Abgrfp16, input@, p as int));
    r
}

/// Channel `c` of an `abgrfp32` pixel.
fn f32_channel(input: &[u8], p: usize, c: usize) -> (r: u8)
    requires
        c < 4,
        (p + 1) * 16 <= input@.len() <= usize::MAX,
    ensures
        r == unpacked_channel(BitmapFormat::Abgrfp32, input@, p as int, c as int),
{
    let o = 16 * p + 4 * c;
    f32_bits_to_u8(read_le32(input[o], input[o + 1], input[o + 2], input[o + 3]))
}

/// `abgrfp32`: four single floats `[R, G, B, A]`, clamped and scaled.
fn decode_abgrfp32(input: &[u8], p: usize) -> (r: [u8; 4])
    requires
        (p + 1) * 16 <= input@.len() <= usize::MAX,
    ensures
        r@ == unpacked_pixel(BitmapFormat::Abgrfp32, input@, p as int),
{
    let r = [f32_channel(input, p, 0), f32_channel(input, p, 1), f32_channel(input, p, 2), f32_channel(input, p, 3)];
    assert(r@ =~= unpacked_pixel(BitmapFormat::Abgrfp32, input@, p as int));
    r
}

/// Decode pixel `p` of a per-pixel format.
fn decode_unpacked_pixel(format: BitmapFormat, input: &[u8], p: usize) -> (r: [u8; 4])
    requires
        !format.spec_is_compressed(),
        (p + 1) * (format.spec_bytes_per_pixel() as int) <= input@.len() <= usize::MAX,
    ensures
        r@ == unpacked_pixel(format, input@, p as int),
{
    match format {
        BitmapFormat::A8 => decode_a8(input, p),
        BitmapFormat::Y8 => decode_y8(input, p),
        BitmapFormat::R8 => decode_r8(input, p),
        BitmapFormat::Ay8 => decode_ay8(input, p),
        BitmapFormat::A8y8 => decode_a8y8(input, p),
        BitmapFormat::A4r4g4b4 => decode_a4r4g4b4(input, p),
        BitmapFormat::X8r8g8b8 => decode_x8r8g8b8(input, p),
        BitmapFormat::A8r8g8b8 => decode_a8r8g8b8(input, p),
        BitmapFormat::V8u8 => decode_v8u8(input, p),
        BitmapFormat::Q8w8v8u8 => decode_q8w8v8u8(input, p),
        BitmapFormat::A16b16g16r16 => decode_a16b16g16r16(input, p),
        BitmapFormat::Signedr16g16b16a16 => decode_signedr16g16b16a16(input, p),
        BitmapFormat::Abgrfp16 => decode_abgrfp16(input, p),
        _ => decode_abgrfp32(input, p),
    }
}

/// Decode `pixels` pixels of a per-pixel format into RGBA8.
fn decode_unpacked(format: BitmapFormat, input: &[u8], pixels: usize) -> (out: Vec<u8>)
    requires
        !format.spec_is_compressed(),
        pixels * (format.spec_bytes_per_pixel() as int) <= input@.len() <= usize::MAX,
        4 * pixels <= usize::MAX,
    ensures
        out@ == Seq::new(4 * pixels as nat, |q: int| unpacked_channel(format, input@, q / 4, q % 4)),
{
    let mut out: Vec<u8> = Vec::new();
    let mut p: usize = 0;
    while p < pixels
        invariant
            p <= pixels,
            !format.spec_is_compressed(),
            pixels * (format.spec_bytes_per_pixel() as int) <= input@.len() <= usize::MAX,
            4 * pixels <= usize::MAX,
            out@.len() == 4 * p,
            forall|q: int| 0 <= q < 4 * p ==> out@[q] == unpacked_channel(format, input@, q / 4, q % 4),
        decreases pixels - p,
    {
        proof {
            let bpp = format.spec_bytes_per_pixel() as int;
            assert((p + 1) * bpp <= pixels * bpp) by (nonlinear_arith)
                requires
                    p + 1 <= pixels,
                    bpp >= 0,
            ;
        }
        let px = decode_unpacked_pixel(format, input, p);
        out.push(px[0]);
        out.push(px[1]);
        out.push(px[2]);
        out.push(px[3]);
        p = p + 1;
    }
    assert(out@ =~= Seq::new(4 * pixels as nat, |q: int| unpacked_channel(format, input@, q / 4, q % 4)));
    out
}

} // verus!

verus! {

//==========================================================================
// Block-compressed formats
//==========================================================================

/// Fill `values` with the 8-entry palette of a BC4-style alpha
/// sub-block (2 endpoints + 6 interpolated or 4 interpolated + 0/255)
/// and return its 48-bit little-endian index field.
fn unpack_bc4_alpha_block(block: &[u8], values: &mut [u8; 8]) -> (r: u64)
    requires
        block@.len() == 8,
    ensures
        r == bc4_index_field(block@, 0),
        forall|i: int| 0 <= i < 8 ==> #[trigger] final(values)@[i] == bc4_palette(block@[0], block@[1], i),
{
    let v0 = block[0] as u32;
    let v1 = block[1] as u32;
    values[0] = v0 as u8;
    values[1] = v1 as u8;
    if v0 > v1 {
        let mut i: u32 = 0;
        while i < 6
            invariant
                i <= 6,
                v0 == block@[0],
                v1 == block@[1],
                v0 > v1,
                v0 <= 255,
                v1 <= 255,
                values@[0] == block@[0],
                values@[1] == block@[1],
                forall|t: int| 2 <= t < 2 + i ==> #[trigger] values@[t] == bc4_palette(block@[0], block@[1], t),
            decreases 6 - i,
        {
            proof {
                assert((6 - i) * v0 + (1 + i) * v1 <= 7 * 255) by (nonlinear_arith)
                    requires
                        i < 6,
                        v0 <= 255,
                        v1 <= 255,
                ;
            }
            values[(2 + i) as usize] = (((6 - i) * v0 + (1 + i) * v1) / 7) as u8;
            i = i + 1;
        }
    } else {
        let mut i: u32 = 0;
        while i < 4
            invariant
                i <= 4,
                v0 == block@[0],
                v1 == block@[1],
                v0 <= v1,
                v0 <= 255,
                v1 <= 255,
                values@[0] == block@[0],
                values@[1] == block@[1],
                forall|t: int| 2 <= t < 2 + i ==> #[trigger] values@[t] == bc4_palette(block@[0], block@[1], t),
            decreases 4 - i,
        {
            proof {
                assert((4 - i) * v0 + (1 + i) * v1 <= 5 * 255) by (nonlinear_arith)
                    requires
                        i < 4,
                        v0 <= 255,
                        v1 <= 255,
                ;
            }
            values[(2 + i) as usize] = (((4 - i) * v0 + (1 + i) * v1) / 5) as u8;
            i = i + 1;
        }
        values[6] = 0;
        values[7] = 255;
    }
    (block[2] as u64) | ((block[3] as u64) << 8) | ((block[4] as u64) << 16) | ((block[5] as u64) << 24)
        | ((block[6] as u64) << 32) | ((block[7] as u64) << 40)
}

/// `dxn_mono_alpha` block: luminance (first sub-block) replicated into
/// RGB, alpha from the second sub-block.
fn mono_alpha_block(block: &[u8]) -> (r: [u8; 64])
    requires
        block@.len() == 16,
    ensures
        r@ == mono_alpha_block_rgba(block@),
{
    let red = slice_subrange(block, 0, 8);
    let green = slice_subrange(block, 8, 16);
    let mut red_values = [0u8; 8];
    let red_indices = unpack_bc4_alpha_block(red, &mut red_values);
    let mut green_values = [0u8; 8];
    let green_indices = unpack_bc4_alpha_block(green, &mut green_values);
    assert(red_indices == bc4_index_field(block@, 0));
    assert(green_indices == bc4_index_field(block@, 8));
    let mut out = [0u8; 64];
    let mut t: u64 = 0;
    while t < 16
        invariant
            t <= 16,
            block@.len() == 16,
            red_indices == bc4_index_field(block@, 0),
            green_indices == bc4_index_field(block@, 8),
            forall|i: int| 0 <= i < 8 ==> #[trigger] red_values@[i] == bc4_palette(block@[0], block@[1], i),
            forall|i: int| 0 <= i < 8 ==> #[trigger] green_values@[i] == bc4_palette(block@[8], block@[9], i),
            forall|o: int| 0 <= o < 4 * t ==> #[trigger] out@[o] == mono_alpha_block_rgba(block@)[o],
        decreases 16 - t,
    {
        let ri = ((red_indices >> (3 * t)) & 7) as usize;
        let gi = ((green_indices >> (3 * t)) & 7) as usize;
        assert((red_indices >> (3 * t)) & 7 < 8) by (bit_vector);
        assert((green_indices >> (3 * t)) & 7 < 8) by (bit_vector);
        let l = red_values[ri];
        let a = green_values[gi];
        let o = (4 * t) as usize;
        out[o] = l;
        out[o + 1] = l;
        out[o + 2] = l;
        out[o + 3] = a;
        proof {
            assert(bc4_texel(block@, 0, t as int) == l);
            assert(bc4_texel(block@, 8, t as int) == a);
        }
        t = t + 1;
    }
    assert(out@ =~= mono_alpha_block_rgba(block@));
    out
}

/// RGBA8 texels of block `k` of a block-compressed level.
fn block_rgba(format: BitmapFormat, input: &[u8], k: usize) -> (r: [u8; 64])
    requires
        format.spec_is_compressed(),
        (k + 1) * (format.spec_block_bytes() as int) <= input@.len() <= usize::MAX,
    ensures
        r@ == block_texels(format, input@, k as int),
{
    proof {
        if format.spec_block_bytes() == 8 {
            assert((k + 1) * 8 == 8 * k + 8);
            assert(8 * k + 8 <= input@.len());
        } else {
            assert(format.spec_block_bytes() == 16);
            assert((k + 1) * 16 == 16 * k + 16);
            assert(16 * k + 16 <= input@.len());
        }
    }
    match format {
        BitmapFormat::Dxt1 => bcdec_bc1(slice_subrange(input, 8 * k, 8 * k + 8)),
        BitmapFormat::Dxt3 => bcdec_bc2(slice_subrange(input, 16 * k, 16 * k + 16)),
        BitmapFormat::Dxt5 => bcdec_bc3(slice_subrange(input, 16 * k, 16 * k + 16)),
        BitmapFormat::Dxt5a => {
            let staging = bcdec_bc4(slice_subrange(input, 8 * k, 8 * k + 8));
            let ghost rs = bc4_block_r8(input@.subrange(8 * k, 8 * k + 8));
            let mut out = [0u8; 64];
            let mut t: usize = 0;
            while t < 16
                invariant
                    t <= 16,
                    staging@ == rs,
                    staging@.len() == 16,
                    forall|o: int| 0 <= o < 4 * t ==> #[trigger] out@[o] == (if o % 4 < 3 { rs[o / 4] } else { 255 }),
                decreases 16 - t,
            {
                let v = staging[t];
                out[4 * t] = v;
                out[4 * t + 1] = v;
                out[4 * t + 2] = v;
                out[4 * t + 3] = 255;
                t = t + 1;
            }
            assert(out@ =~= block_texels(format, input@, k as int));
            out
        },
        BitmapFormat::Dxn => {
            let staging = bcdec_bc5(slice_subrange(input, 16 * k, 16 * k + 16));
            let ghost rg = bc5_block_rg8(input@.subrange(16 * k, 16 * k + 16));
            let mut out = [0u8; 64];
            let mut t: usize = 0;
            while t < 16
                invariant
                    t <= 16,
                    staging@ == rg,
                    staging@.len() == 32,
                    forall|o: int| 0 <= o < 4 * t ==> #[trigger] out@[o]
                        == (if o % 4 < 2 { rg[2 * (o / 4) + o % 4] } else if o % 4 == 2 { 128 } else { 255 }),
                decreases 16 - t,
            {
                out[4 * t] = staging[2 * t];
                out[4 * t + 1] = staging[2 * t + 1];
                out[4 * t + 2] = 128;
                out[4 * t + 3] = 255;
                t = t + 1;
            }
            assert(out@ =~= block_texels(format, input@, k as int));
            out
        },
        _ => mono_alpha_block(slice_subrange(input, 16 * k, 16 * k + 16)),
    }
}

/// Byte `q` of the RGBA8 image assembled from decoded 4x4 blocks laid
/// out row-major, `blocks_across(width)` blocks per row.
pub open spec fn assembled_byte(blocks: Seq<[u8; 64]>, width: nat, q: int) -> u8 {
    let p = q / 4;
    let px = p % (width as int);
    let py = p / (width as int);
    blocks[(py / 4) * (blocks_across(width) as int) + px / 4]@[((py % 4) * 4 + px % 4) * 4 + q % 4]
}

proof fn lemma_block_index_in_range(p: int, w: int, h: int, bw: int, bh: int)
    requires
        0 <= p < w * h,
        w > 0,
        bw == blocks_across(w as nat),
        bh == blocks_across(h as nat),
    ensures
        0 <= (p / w / 4) * bw + (p % w) / 4 < bw * bh,
        0 <= p % w < w,
        0 <= p / w < h,
{
    assert(0 <= p % w < w) by (nonlinear_arith)
        requires
            w > 0,
    ;
    assert(p / w < h && p / w >= 0) by (nonlinear_arith)
        requires
            w > 0,
            0 <= p < w * h,
    ;
    let px = p % w;
    let py = p / w;
    assert(px / 4 < bw);
    assert(py / 4 < bh);
    assert((py / 4) * bw + px / 4 < bw * bh) by (nonlinear_arith)
        requires
            0 <= py / 4 < bh,
            0 <= px / 4 < bw,
    ;
    assert((py / 4) * bw >= 0) by (nonlinear_arith)
        requires
            py / 4 >= 0,
            bw >= 0,
    ;
}

/// Assemble a `width` x `height` RGBA8 image from decoded 4x4 blocks:
/// pixel `(x, y)` takes texel `(x % 4, y % 4)` of block
/// `(y / 4) * blocks_across(width) + x / 4`.
pub fn assemble_blocks_rgba8(blocks: &Vec<[u8; 64]>, width: u32, height: u32) -> (out: Vec<u8>)
    requires
        width <= u32::MAX - 3,
        blocks@.len() == blocks_across(width as nat) * blocks_across(height as nat),
        4 * ((width as int) * (height as int)) <= usize::MAX,
    ensures
        out@ == Seq::new(4 * (width as nat * height as nat), |q: int| assembled_byte(blocks@, width as nat, q)),
{
    let w = width as usize;
    let h = height as usize;
    let bw32 = if (width + 3) / 4 > 1 { (width + 3) / 4 } else { 1 };
    let bw = bw32 as usize;
    let pixels = w * h;
    let nblocks = blocks.len();
    let mut out: Vec<u8> = Vec::new();
    let mut p: usize = 0;
    while p < pixels
        invariant
            p <= pixels,
            pixels == w * h,
            w == width,
            h == height,
            bw == blocks_across(width as nat),
            nblocks == blocks@.len(),
            blocks@.len() == blocks_across(width as nat) * blocks_across(height as nat),
            4 * ((width as int) * (height as int)) <= usize::MAX,
            out@.len() == 4 * p,
            forall|q: int| 0 <= q < 4 * p ==> #[trigger] out@[q] == assembled_byte(blocks@, width as nat, q),
        decreases pixels - p,
    {
        assert(w > 0) by (nonlinear_arith)
            requires
                p < pixels,
                pixels == w * h,
        ;
        proof {
            lemma_block_index_in_range(p as int, w as int, h as int, bw as int, blocks_across(height as nat) as int);
        }
        let px = p % w;
        let py = p / w;
        proof {
            assert((py / 4) * bw <= (py / 4) * bw + px / 4);
            assert((py / 4) * bw + px / 4 < blocks@.len());
        }
        let k = (py / 4) * bw + px / 4;
        let o = ((py % 4) * 4 + px % 4) * 4;
        let block = &blocks[k];
        out.push(block[o]);
        out.push(block[o + 1]);
        out.push(block[o + 2]);
        out.push(block[o + 3]);
        proof {
            assert forall|q: int| 4 * p <= q < 4 * p + 4 implies #[trigger] out@[q] == assembled_byte(blocks@, width as nat, q) by {
                assert(q / 4 == p);
                assert(q % 4 == q - 4 * p);
            }
        }
        p = p + 1;
    }
    assert(out@ =~= Seq::new(4 * (width as nat * height as nat), |q: int| assembled_byte(blocks@, width as nat, q))) by {
        assert(4 * p == 4 * (width as nat * height as nat)) by (nonlinear_arith)
            requires
                p == w * h,
                w == width,
                h == height,
        ;
    }
    out
}

/// Decode a block-compressed level: decode every block, then assemble.
pub(crate) fn decode_blocks(format: BitmapFormat, input: &[u8], width: u32, height: u32) -> (out: Vec<u8>)
    requires
        format.spec_is_compressed(),
        width <= u32::MAX - 3,
        height <= u32::MAX - 3,
        format.spec_level_bytes(width as nat, height as nat) <= input@.len() <= usize::MAX,
        4 * ((width as int) * (height as int)) <= usize::MAX,
    ensures
        out@ == Seq::new(4 * (width as nat * height as nat),
            |q: int| block_channel(format, width as nat, input@, (q / 4) % (width as int), (q / 4) / (width as int), q % 4)),
{
    let bw = if (width + 3) / 4 > 1 { (width + 3) / 4 } else { 1 };
    let bh = if (height + 3) / 4 > 1 { (height + 3) / 4 } else { 1 };
    let bb = format.block_bytes();
    proof {
        assert(bw as int * bh as int * bb as int <= input@.len());
        assert(bw as int * bh as int <= input@.len()) by (nonlinear_arith)
            requires
                bw as int * bh as int * bb as int <= input@.len(),
                bb >= 8,
        ;
    }
    let count = bw as usize * bh as usize;
    let mut blocks: Vec<[u8; 64]> = Vec::new();
    let mut k: usize = 0;
    while k < count
        invariant
            k <= count,
            count == bw * bh,
            bb == format.spec_block_bytes(),
            bb >= 8,
            format.spec_is_compressed(),
            bw as int * bh as int * bb as int <= input@.len() <= usize::MAX,
            blocks@.len() == k,
            forall|i: int| 0 <= i < k ==> #[trigger] blocks@[i]@ == block_texels(format, input@, i),
        decreases count - k,
    {
        proof {
            assert((k + 1) * (bb as int) <= (count as int) * (bb as int)) by (nonlinear_arith)
                requires
                    k < count,
                    bb >= 0,
            ;
        }
        let b = block_rgba(format, input, k);
        blocks.push(b);
        k = k + 1;
    }
    let out = assemble_blocks_rgba8(&blocks, width, height);
    assert(out@ =~= Seq::new(4 * (width as nat * height as nat),
        |q: int| block_channel(format, width as nat, input@, (q / 4) % (width as int), (q / 4) / (width as int), q % 4)))
    by {
        assert forall|q: int| 0 <= q < 4 * (width as nat * height as nat) implies
            assembled_byte(blocks@, width as nat, q)
                == block_channel(format, width as nat, input@, (q / 4) % (width as int), (q / 4) / (width as int), q % 4) by {
            assert(width > 0) by (nonlinear_arith)
                requires
                    0 <= q < 4 * (width as nat * height as nat),
            ;
            assert(0 <= q / 4 < (width as int) * (height as int)) by (nonlinear_arith)
                requires
                    0 <= q < 4 * ((width as int) * (height as int)),
            ;
            lemma_block_index_in_range(q / 4, width as int, height as int, bw as int, bh as int);
        }
    }
    out
}

//==========================================================================
// Entry point
//==========================================================================

/// Decode one mip level of `format` into RGBA8 (`width * height * 4`
/// bytes, memory order `[R, G, B, A]`). Fails with
/// `PixelSliceOutOfBounds` when `input` is shorter than
/// `format.level_bytes(width, height)`.
pub fn decode_to_rgba8(format: BitmapFormat, width: u32, height: u32, input: &[u8]) -> (r: Result<Vec<u8>, BitmapError>)
    requires
        format.spec_is_compressed() ==> width <= u32::MAX - 3 && height <= u32::MAX - 3,
        format.spec_level_bytes(width as nat, height as nat) <= usize::MAX,
        4 * ((width as int) * (height as int)) <= usize::MAX,
    ensures
        input@.len() < format.spec_level_bytes(width as nat, height as nat) <==> r is Err,
        r matches Err(e) ==> e == (BitmapError::PixelSliceOutOfBounds {
            offset: 0,
            size: format.spec_level_bytes(width as nat, height as nat) as u64,
            available: input@.len() as u64,
        }),
        r matches Ok(out) ==> out@ == decoded_level(format, width as nat, height as nat, input@),
{
    let need = format.level_bytes(width, height) as usize;
    let available = input.len();
    if available < need {
        return Err(BitmapError::PixelSliceOutOfBounds { offset: 0, size: need as u64, available: available as u64 });
    }
    if format.is_compressed() {
        let out = decode_blocks(format, input, width, height);
        assert(out@ =~= decoded_level(format, width as nat, height as nat, input@));
        Ok(out)
    } else {
        let pixels = width as usize * height as usize;
        proof {
            assert(4 * pixels <= usize::MAX);
            assert(pixels * (format.spec_bytes_per_pixel() as int) == format.spec_level_bytes(width as nat, height as nat));
        }
        let out = decode_unpacked(format, input, pixels);
        assert(out@ =~= decoded_level(format, width as nat, height as nat, input@));
        Ok(out)
    }
}

} // verus!
