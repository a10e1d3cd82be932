//! Xbox 360 (Xenos GPU) texture layout: the 32x32-block tiled address
//! function, the bulk detiler, and the 16-bit endian fix-up applied to
//! compressed blocks.
use vstd::prelude::*;

verus! {

/// Number of low zero bits of a texel pitch in `1..=16`.
pub open spec fn pitch_log2(value: u32) -> u32 {
    if value & 1 == 1 {
        0
    } else if value & 2 == 2 {
        1
    } else if value & 4 == 4 {
        2
    } else if value & 8 == 8 {
        3
    } else {
        4
    }
}

/// `(x >> 5) + (y >> 5) * (aligned_width >> 5)`, the index of the 32x32
/// tile that holds `(x, y)`.
pub open spec fn macro_tile(x: u32, y: u32, width_in_blocks: u32) -> int {
    let aligned_width = ((width_in_blocks + 31) as u32) & !31u32;
    (x >> 5u32) + (y >> 5u32) * (aligned_width >> 5u32)
}

/// The intermediate sums of the tiled-address formula stay within `u32`.
pub open spec fn tiled_offset_fits(x: u32, y: u32, width_in_blocks: u32, texel_pitch: u32) -> bool {
    let log_bpp = pitch_log2(texel_pitch);
    let macro_part = (macro_tile(x, y, width_in_blocks) as u32) << ((log_bpp + 7) as u32);
    let micro_part = (((x & 7u32) + ((y & 6u32) << 2u32)) as u32) << log_bpp;
    let offset = macro_part + ((micro_part & !15u32) << 1u32) + (micro_part & 15u32)
        + ((y & 8u32) << ((3 + log_bpp) as u32)) + ((y & 1u32) << 4u32);
    &&& width_in_blocks + 31 <= u32::MAX
    &&& macro_tile(x, y, width_in_blocks) <= u32::MAX
    &&& offset <= u32::MAX
    &&& ((offset as u32) & !511u32) << 3u32 <= u32::MAX
    &&& (((offset as u32) & !511u32) << 3u32) + (((offset as u32) & 448u32) << 2u32) + ((offset as u32) & 63u32)
        + ((y & 16u32) << 7u32) + ((((((y & 8u32) >> 2u32) + (x >> 3u32)) as u32) & 3u32) << 6u32) <= u32::MAX
}

/// Block index of `(x, y)` in a Xenos 2D-tiled surface whose rows hold
/// `width_in_blocks` blocks of `texel_pitch` bytes.
pub open spec fn tiled_offset(x: u32, y: u32, width_in_blocks: u32, texel_pitch: u32) -> u32 {
    let log_bpp = pitch_log2(texel_pitch);
    let macro_part = (macro_tile(x, y, width_in_blocks) as u32) << ((log_bpp + 7) as u32);
    let micro_part = (((x & 7u32) + ((y & 6u32) << 2u32)) as u32) << log_bpp;
    let offset = (macro_part + ((micro_part & !15u32) << 1u32) + (micro_part & 15u32)
        + ((y & 8u32) << ((3 + log_bpp) as u32)) + ((y & 1u32) << 4u32)) as u32;
    let tiled_byte_offset = (((offset & !511u32) << 3u32) + ((offset & 448u32) << 2u32) + (offset & 63u32)
        + ((y & 16u32) << 7u32) + ((((((y & 8u32) >> 2u32) + (x >> 3u32)) as u32) & 3u32) << 6u32)) as u32;
    tiled_byte_offset >> log_bpp
}

/// The tiled address of block `(x, y)` of the first 32x32-block tile,
/// for blocks of `2^l` bytes.
spec fn first_tile_offset(x: u32, y: u32, l: u32) -> u32 {
    let macro_part = 0u32 << ((l + 7) as u32);
    let micro_part = (((x & 7u32) + ((y & 6u32) << 2u32)) as u32) << l;
    let offset = (macro_part + ((micro_part & !15u32) << 1u32) + (micro_part & 15u32) + ((y & 8u32) << ((3 + l) as u32))
        + ((y & 1u32) << 4u32)) as u32;
    let tiled_byte_offset = (((offset & !511u32) << 3u32) + ((offset & 448u32) << 2u32) + (offset & 63u32)
        + ((y & 16u32) << 7u32) + ((((((y & 8u32) >> 2u32) + (x >> 3u32)) as u32) & 3u32) << 6u32)) as u32;
    tiled_byte_offset >> l
}

/// No two blocks of a 32x32-block tile share a tiled address: the tiled
/// layout moves each block of the tile to a slot of its own, whatever
/// the surface width and block size.
pub proof fn lemma_tiled_offset_distinct_in_tile(x1: u32, y1: u32, x2: u32, y2: u32, width_in_blocks: u32, texel_pitch: u32)
    requires
        valid_pitch(texel_pitch),
        x1 < 32,
        y1 < 32,
        x2 < 32,
        y2 < 32,
        width_in_blocks + 31 <= u32::MAX,
        x1 != x2 || y1 != y2,
    ensures
        tiled_offset(x1, y1, width_in_blocks, texel_pitch) != tiled_offset(x2, y2, width_in_blocks, texel_pitch),
{
    let l = pitch_log2(texel_pitch);
    assert(l <= 4);
    assert(x1 >> 5u32 == 0 && y1 >> 5u32 == 0 && x2 >> 5u32 == 0 && y2 >> 5u32 == 0) by (bit_vector)
        requires
            x1 < 32,
            y1 < 32,
            x2 < 32,
            y2 < 32,
    ;
    assert(macro_tile(x1, y1, width_in_blocks) == 0);
    assert(macro_tile(x2, y2, width_in_blocks) == 0);
    assert(tiled_offset(x1, y1, width_in_blocks, texel_pitch) == first_tile_offset(x1, y1, l));
    assert(tiled_offset(x2, y2, width_in_blocks, texel_pitch) == first_tile_offset(x2, y2, l));
    assert(first_tile_offset(x1, y1, l) != first_tile_offset(x2, y2, l)) by (bit_vector)
        requires
            x1 < 32,
            y1 < 32,
            x2 < 32,
            y2 < 32,
            l <= 4,
            x1 != x2 || y1 != y2,
    ;
}

/// Whether `value` is a texel pitch the tiler handles.
pub open spec fn valid_pitch(value: u32) -> bool {
    0 < value <= 16
}

/// `log2` of a texel pitch in `1..=16` (its count of low zero bits).
fn xg_log2_le16(value: u32) -> (r: u32)
    requires
        valid_pitch(value),
    ensures
        r == pitch_log2(value),
        r <= 4,
{
    if value & 1 == 1 {
        0
    } else if value & 2 == 2 {
        1
    } else if value & 4 == 4 {
        2
    } else if value & 8 == 8 {
        3
    } else {
        4
    }
}

/// Block index of `(x, y)` inside a tiled buffer. `width_in_blocks` is
/// the surface's per-row block count; `texel_pitch` is the byte count of
/// one block (8 for BC1/BC4, 16 for BC2/BC3/BC5). Multiply the result by
/// `texel_pitch` for the byte offset.
pub fn xg_address_2d_tiled_offset(x: u32, y: u32, width_in_blocks: u32, texel_pitch: u32) -> (r: u32)
    requires
        valid_pitch(texel_pitch),
        tiled_offset_fits(x, y, width_in_blocks, texel_pitch),
    ensures
        r == tiled_offset(x, y, width_in_blocks, texel_pitch),
{
    let aligned_width = (width_in_blocks + 31) & !31;
    let log_bpp = xg_log2_le16(texel_pitch);
    let tile: u32 = (x >> 5) + (y >> 5) * (aligned_width >> 5);
    let macro_part: u32 = tile << (log_bpp + 7);
    assert((x & 7u32) + ((y & 6u32) << 2u32) <= 31) by (bit_vector);
    assert(((y & 8u32) >> 2u32) + (x >> 3u32) <= u32::MAX) by (bit_vector);
    let micro_part: u32 = ((x & 7) + ((y & 6) << 2)) << log_bpp;
    let offset = macro_part + ((micro_part & !15) << 1) + (micro_part & 15) + ((y & 8) << (3 + log_bpp))
        + ((y & 1) << 4);
    let tiled_byte_offset = ((offset & !511) << 3) + ((offset & 448) << 2) + (offset & 63) + ((y & 16) << 7)
        + (((((y & 8) >> 2) + (x >> 3)) & 3) << 6);
    tiled_byte_offset >> log_bpp
}

/// Byte `i` of the linear (row-major) form of a tiled surface: the byte
/// of the block that `(x, y)` maps to, or zero where that block lies past
/// the end of `tiled`.
pub open spec fn detiled_byte(tiled: Seq<u8>, width_in_blocks: u32, texel_pitch: u32, i: int) -> u8 {
    let block = i / (texel_pitch as int);
    let x = (block % (width_in_blocks as int)) as u32;
    let y = (block / (width_in_blocks as int)) as u32;
    let src = (tiled_offset(x, y, width_in_blocks, texel_pitch) as int) * (texel_pitch as int);
    if src + texel_pitch <= tiled.len() {
        tiled[src + i % (texel_pitch as int)]
    } else {
        0
    }
}

/// Convert a tiled compressed-block buffer into row-major order. The
/// result holds `width_in_blocks * height_in_blocks` records of
/// `texel_pitch` bytes; a record whose tiled source lies past the end of
/// `tiled` stays zero.
pub fn detile_blocks(tiled: &[u8], width_in_blocks: u32, height_in_blocks: u32, texel_pitch: u32) -> (out: Vec<u8>)
    requires
        valid_pitch(texel_pitch),
        (width_in_blocks as int) * (height_in_blocks as int) <= u32::MAX,
        (width_in_blocks as int) * (height_in_blocks as int) * (texel_pitch as int) <= usize::MAX,
        forall|x: u32, y: u32|
            x < width_in_blocks && y < height_in_blocks ==> #[trigger] tiled_offset_fits(x, y, width_in_blocks, texel_pitch),
    ensures
        out@ == Seq::new(
            ((width_in_blocks as int) * (height_in_blocks as int) * (texel_pitch as int)) as nat,
            |i: int| detiled_byte(tiled@, width_in_blocks, texel_pitch, i),
        ),
{
    let blocks: u32 = width_in_blocks * height_in_blocks;
    let pitch = texel_pitch as usize;
    let tiled_len = tiled.len();
    let mut out: Vec<u8> = Vec::new();
    let mut b: u32 = 0;
    while b < blocks
        invariant
            b <= blocks,
            blocks as int == (width_in_blocks as int) * (height_in_blocks as int),
            pitch == texel_pitch,
            valid_pitch(texel_pitch),
            tiled_len == tiled@.len(),
            (width_in_blocks as int) * (height_in_blocks as int) * (texel_pitch as int) <= usize::MAX,
            forall|x: u32, y: u32|
                x < width_in_blocks && y < height_in_blocks ==> #[trigger] tiled_offset_fits(x, y, width_in_blocks, texel_pitch),
            out@.len() == (b as int) * (texel_pitch as int),
            forall|i: int| 0 <= i < out@.len() ==> #[trigger] out@[i] == detiled_byte(tiled@, width_in_blocks, texel_pitch, i),
        decreases blocks - b,
    {
        let x = b % width_in_blocks;
        let y = b / width_in_blocks;
        proof {
            assert(y < height_in_blocks) by (nonlinear_arith)
                requires
                    b < (width_in_blocks as int) * (height_in_blocks as int),
                    y == b / width_in_blocks,
                    width_in_blocks > 0,
            ;
        }
        let src_block = xg_address_2d_tiled_offset(x, y, width_in_blocks, texel_pitch);
        proof {
            assert((src_block as int) * (texel_pitch as int) <= 0x1_0000_0000 * 16) by (nonlinear_arith)
                requires
                    src_block <= u32::MAX,
                    texel_pitch <= 16,
            ;
        }
        let src_off: u64 = src_block as u64 * texel_pitch as u64;
        let fits = src_off + texel_pitch as u64 <= tiled_len as u64;
        let ghost start = out@.len() as int;
        let mut k: usize = 0;
        while k < pitch
            invariant
                k <= pitch,
                pitch == texel_pitch,
                valid_pitch(texel_pitch),
                tiled_len == tiled@.len(),
                b < blocks,
                blocks as int == (width_in_blocks as int) * (height_in_blocks as int),
                x == b % width_in_blocks,
                y == b / width_in_blocks,
                src_block == tiled_offset(x, y, width_in_blocks, texel_pitch),
                src_off == (src_block as int) * (texel_pitch as int),
                fits == (src_off + texel_pitch <= tiled@.len()),
                start == (b as int) * (texel_pitch as int),
                out@.len() == start + k,
                forall|i: int| 0 <= i < out@.len() ==> #[trigger] out@[i] == detiled_byte(tiled@, width_in_blocks, texel_pitch, i),
            decreases pitch - k,
        {
            let v = if fits { tiled[(src_off as usize) + k] } else { 0u8 };
            proof {
                let i = start + k;
                assert(i / (texel_pitch as int) == b as int && i % (texel_pitch as int) == k as int) by (nonlinear_arith)
                    requires
                        i == (b as int) * (texel_pitch as int) + k,
                        0 <= k < texel_pitch,
                ;
                assert(v == detiled_byte(tiled@, width_in_blocks, texel_pitch, i));
            }
            out.push(v);
            k = k + 1;
        }
        proof {
            assert(out@.len() == (b as int + 1) * (texel_pitch as int)) by (nonlinear_arith)
                requires
                    out@.len() == (b as int) * (texel_pitch as int) + texel_pitch,
            ;
        }
        b = b + 1;
    }
    out
}

/// Swap the two bytes of every complete 16-bit pair of `buf` (a trailing
/// odd byte stays). Xenos stores each `u16` of a DXT/BC block with its
/// bytes reversed relative to PC.
pub fn swap_byte_pairs(buf: &mut [u8])
    ensures
        final(buf)@.len() == old(buf)@.len(),
        forall|i: int|
            0 <= i < old(buf)@.len() ==> #[trigger] final(buf)@[i] == if i % 2 == 1 || i + 1 < old(buf)@.len() {
                old(buf)@[i + 1 - 2 * (i % 2)]
            } else {
                old(buf)@[i]
            },
{
    let n = buf.len();
    let mut p: usize = 0;
    while p + 1 < n
        invariant
            n == old(buf)@.len(),
            buf@.len() == n,
            p % 2 == 0,
            p <= n,
            forall|i: int| 0 <= i < p ==> #[trigger] buf@[i] == old(buf)@[i + 1 - 2 * (i % 2)],
            forall|i: int| p <= i < n ==> #[trigger] buf@[i] == old(buf)@[i],
        decreases n - p,
    {
        let a = buf[p];
        let c = buf[p + 1];
        buf[p] = c;
        buf[p + 1] = a;
        p = p + 2;
    }
}

} // verus!
