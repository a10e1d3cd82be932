//! DDS file assembly (legacy header and DXT10 extension) and the CPU
//! decompressor for the Halo-specific `dxn_mono_alpha` layout.
//!
//! The writers append to a byte buffer; the caller does the file I/O.
use vstd::prelude::*;
use vstd::slice::slice_subrange;

use super::decode::{decode_blocks, decoded_level, unpacked_channel};
use super::format::{lemma_mip_extent_le, lemma_surface_monotone, mip_dim, mip_extent, BitmapFormat};

verus! {

pub const DDSD_CAPS: u32 = 0x1;
pub const DDSD_HEIGHT: u32 = 0x2;
pub const DDSD_WIDTH: u32 = 0x4;
pub const DDSD_PITCH: u32 = 0x8;
pub const DDSD_PIXELFORMAT: u32 = 0x1000;
pub const DDSD_MIPMAPCOUNT: u32 = 0x20000;
pub const DDSD_LINEARSIZE: u32 = 0x80000;

pub const DDPF_ALPHAPIXELS: u32 = 0x1;
pub const DDPF_ALPHA: u32 = 0x2;
pub const DDPF_FOURCC: u32 = 0x4;
pub const DDPF_RGB: u32 = 0x40;
pub const DDPF_LUMINANCE: u32 = 0x20000;

pub const DDSCAPS_COMPLEX: u32 = 0x8;
pub const DDSCAPS_TEXTURE: u32 = 0x1000;
pub const DDSCAPS_MIPMAP: u32 = 0x400000;

pub const DDSCAPS2_CUBEMAP: u32 = 0x200;
pub const DDSCAPS2_CUBEMAP_ALL_FACES: u32 = 0xFC00;

pub const DXGI_FORMAT_R32G32B32A32_FLOAT: u32 = 2;
pub const DXGI_FORMAT_R16G16B16A16_FLOAT: u32 = 10;
pub const DXGI_FORMAT_R16G16B16A16_UNORM: u32 = 11;
pub const DXGI_FORMAT_R16G16B16A16_SNORM: u32 = 13;
pub const DXGI_FORMAT_R8G8B8A8_SNORM: u32 = 32;
pub const DXGI_FORMAT_R8G8_SNORM: u32 = 51;
pub const DXGI_FORMAT_R8G8_UNORM: u32 = 49;
pub const DXGI_FORMAT_R8_UNORM: u32 = 61;
pub const DXGI_FORMAT_A8_UNORM: u32 = 65;
pub const DXGI_FORMAT_BC1_UNORM: u32 = 71;
pub const DXGI_FORMAT_BC2_UNORM: u32 = 74;
pub const DXGI_FORMAT_BC3_UNORM: u32 = 77;
pub const DXGI_FORMAT_BC4_UNORM: u32 = 80;
pub const DXGI_FORMAT_BC5_UNORM: u32 = 83;
pub const DXGI_FORMAT_B8G8R8A8_UNORM: u32 = 87;
pub const DXGI_FORMAT_B8G8R8X8_UNORM: u32 = 88;
pub const DXGI_FORMAT_B4G4R4A4_UNORM: u32 = 115;

pub const D3D10_RESOURCE_DIMENSION_TEXTURE2D: u32 = 3;

/// Four-character code read as a little-endian `u32`.
pub open spec fn spec_fourcc(a: u8, b: u8, c: u8, d: u8) -> u32 {
    (a as nat + 256 * (b as nat) + 65536 * (c as nat) + 16777216 * (d as nat)) as u32
}

/// Four-character code read as a little-endian `u32`.
fn fourcc(s: [u8; 4]) -> (r: u32)
    ensures
        r == spec_fourcc(s[0], s[1], s[2], s[3]),
{
    let (a, b, c, d) = (s[0], s[1], s[2], s[3]);
    assert((a as u32) | ((b as u32) << 8) | ((c as u32) << 16) | ((d as u32) << 24)
        == (a as u64 + 256 * (b as u64) + 65536 * (c as u64) + 16777216 * (d as u64)) as u32) by (bit_vector);
    (a as u32) | ((b as u32) << 8) | ((c as u32) << 16) | ((d as u32) << 24)
}

/// The 32-byte `DDS_PIXELFORMAT` contents (after its size word).
#[derive(Clone, Copy)]
pub struct PixelFormat {
    pub flags: u32,
    pub fourcc: u32,
    pub rgb_bit_count: u32,
    pub r_mask: u32,
    pub g_mask: u32,
    pub b_mask: u32,
    pub a_mask: u32,
}

/// Pixel format that only names a four-character code.
pub open spec fn pf_of_fourcc(value: u32) -> PixelFormat {
    PixelFormat { flags: DDPF_FOURCC, fourcc: value, rgb_bit_count: 0, r_mask: 0, g_mask: 0, b_mask: 0, a_mask: 0 }
}

/// Pixel format with explicit bit count and masks.
pub open spec fn pf_masks(flags: u32, bits: u32, r: u32, g: u32, b: u32, a: u32) -> PixelFormat {
    PixelFormat { flags, fourcc: 0, rgb_bit_count: bits, r_mask: r, g_mask: g, b_mask: b, a_mask: a }
}

/// Whether a format has a legacy (pre-DXT10) DDS pixel format.
pub open spec fn has_legacy_pixel_format(f: BitmapFormat) -> bool {
    f != BitmapFormat::Signedr16g16b16a16 && f != BitmapFormat::DxnMonoAlpha
}

/// The legacy DDS pixel format of `f`.
pub open spec fn spec_pixel_format(f: BitmapFormat) -> PixelFormat {
    match f {
        BitmapFormat::Dxt1 => pf_of_fourcc(spec_fourcc(0x44, 0x58, 0x54, 0x31)),
        BitmapFormat::Dxt3 => pf_of_fourcc(spec_fourcc(0x44, 0x58, 0x54, 0x33)),
        BitmapFormat::Dxt5 => pf_of_fourcc(spec_fourcc(0x44, 0x58, 0x54, 0x35)),
        BitmapFormat::Dxt5a => pf_of_fourcc(spec_fourcc(0x41, 0x54, 0x49, 0x31)),
        BitmapFormat::Dxn => pf_of_fourcc(spec_fourcc(0x41, 0x54, 0x49, 0x32)),
        BitmapFormat::Q8w8v8u8 => pf_of_fourcc(63),
        BitmapFormat::Abgrfp16 => pf_of_fourcc(113),
        BitmapFormat::Abgrfp32 => pf_of_fourcc(116),
        BitmapFormat::A16b16g16r16 => pf_of_fourcc(36),
        BitmapFormat::A8 => pf_masks(DDPF_ALPHA, 8, 0, 0, 0, 0xFF),
        BitmapFormat::Y8 | BitmapFormat::R8 => pf_masks(DDPF_LUMINANCE, 8, 0xFF, 0, 0, 0),
        BitmapFormat::Ay8 => pf_masks(DDPF_ALPHA, 8, 0, 0, 0, 0xFF),
        BitmapFormat::A8y8 => pf_masks(DDPF_LUMINANCE | DDPF_ALPHAPIXELS, 16, 0x00FF, 0, 0, 0xFF00),
        BitmapFormat::A4r4g4b4 => pf_masks(DDPF_RGB | DDPF_ALPHAPIXELS, 16, 0x0F00, 0x00F0, 0x000F, 0xF000),
        BitmapFormat::X8r8g8b8 => pf_masks(DDPF_RGB, 32, 0x00FF0000, 0x0000FF00, 0x000000FF, 0),
        BitmapFormat::A8r8g8b8 => pf_masks(DDPF_RGB | DDPF_ALPHAPIXELS, 32, 0x00FF0000, 0x0000FF00, 0x000000FF, 0xFF000000),
        _ => pf_masks(DDPF_RGB, 16, 0xFF00, 0x00FF, 0, 0),
    }
}

/// Mask of byte `k` (0..4) of a little-endian pixel word.
pub open spec fn byte_lane(k: int) -> u32 {
    if k == 0 {
        0xFF
    } else if k == 1 {
        0xFF00
    } else if k == 2 {
        0x00FF_0000
    } else {
        0xFF00_0000
    }
}

/// `mask` covers one whole byte of an `n`-byte pixel, and that byte of
/// pixel `p` holds `value`.
pub open spec fn mask_selects(mask: u32, n: int, input: Seq<u8>, p: int, value: u8) -> bool {
    exists|k: int| 0 <= k < n && mask == byte_lane(k) && value == #[trigger] input[n * p + k]
}

/// Mask of nibble `k` (0..4) of a little-endian 16-bit pixel word.
pub open spec fn nibble_lane(k: int) -> u32 {
    if k == 0 {
        0x000F
    } else if k == 1 {
        0x00F0
    } else if k == 2 {
        0x0F00
    } else {
        0xF000
    }
}

/// `mask` covers one nibble of the 16-bit pixel word `p`, and `value` is
/// that nibble widened to 8 bits (times 17).
pub open spec fn nibble_selects(mask: u32, input: Seq<u8>, p: int, value: u8) -> bool {
    let word = input[2 * p] as int + 256 * (input[2 * p + 1] as int);
    exists|k: int|
        0 <= k < 4 && mask == #[trigger] nibble_lane(k) && value == 17 * ((word / (if k == 0 {
            1int
        } else if k == 1 {
            16int
        } else if k == 2 {
            256int
        } else {
            4096int
        })) % 16)
}

/// The legacy DDS pixel format of `a4r4g4b4` describes the nibbles the
/// decoder reads: a 16-bit pixel whose red, green, blue and alpha masks
/// each cover the nibble [`unpacked_channel`] widens for that channel.
pub proof fn lemma_dds_nibble_masks_select_decoded_nibbles(input: Seq<u8>, p: int)
    requires
        0 <= p,
    ensures
        ({
            let f = BitmapFormat::A4r4g4b4;
            let pf = spec_pixel_format(f);
            &&& pf.rgb_bit_count == 16
            &&& nibble_selects(pf.r_mask, input, p, unpacked_channel(f, input, p, 0))
            &&& nibble_selects(pf.g_mask, input, p, unpacked_channel(f, input, p, 1))
            &&& nibble_selects(pf.b_mask, input, p, unpacked_channel(f, input, p, 2))
            &&& nibble_selects(pf.a_mask, input, p, unpacked_channel(f, input, p, 3))
        }),
{
    let f = BitmapFormat::A4r4g4b4;
    let lo = input[2 * p] as int;
    let hi = input[2 * p + 1] as int;
    let word = lo + 256 * hi;
    assert(word / 1 % 16 == lo % 16);
    assert(word / 16 % 16 == lo / 16);
    assert(word / 256 % 16 == hi % 16);
    assert(word / 4096 % 16 == hi / 16);
    assert(nibble_lane(2) == 0x0F00u32);
    assert(nibble_lane(1) == 0x00F0u32);
    assert(nibble_lane(0) == 0x000Fu32);
    assert(nibble_lane(3) == 0xF000u32);
}

/// The legacy DDS pixel format of an 8-bit-per-channel format describes
/// the bytes the decoder reads: its bit count is the pixel size, and each
/// channel's mask covers the byte of the pixel that
/// [`unpacked_channel`] reads for that channel (red, green, blue and
/// alpha of `a8r8g8b8` and `x8r8g8b8`, luminance and alpha of `a8y8`,
/// luminance of `y8` and `r8`, alpha of `a8`).
pub proof fn lemma_dds_masks_select_decoded_bytes(f: BitmapFormat, input: Seq<u8>, p: int)
    requires
        0 <= p,
    ensures
        f == BitmapFormat::A8r8g8b8 || f == BitmapFormat::X8r8g8b8 ==> {
            let pf = spec_pixel_format(f);
            &&& pf.rgb_bit_count == 32
            &&& mask_selects(pf.r_mask, 4, input, p, unpacked_channel(f, input, p, 0))
            &&& mask_selects(pf.g_mask, 4, input, p, unpacked_channel(f, input, p, 1))
            &&& mask_selects(pf.b_mask, 4, input, p, unpacked_channel(f, input, p, 2))
        },
        f == BitmapFormat::A8r8g8b8 ==> mask_selects(
            spec_pixel_format(f).a_mask,
            4,
            input,
            p,
            unpacked_channel(f, input, p, 3),
        ),
        f == BitmapFormat::A8y8 ==> {
            let pf = spec_pixel_format(f);
            &&& pf.rgb_bit_count == 16
            &&& mask_selects(pf.r_mask, 2, input, p, unpacked_channel(f, input, p, 0))
            &&& mask_selects(pf.a_mask, 2, input, p, unpacked_channel(f, input, p, 3))
        },
        f == BitmapFormat::Y8 || f == BitmapFormat::R8 ==> {
            let pf = spec_pixel_format(f);
            &&& pf.rgb_bit_count == 8
            &&& mask_selects(pf.r_mask, 1, input, p, unpacked_channel(f, input, p, 0))
        },
        f == BitmapFormat::A8 ==> {
            let pf = spec_pixel_format(f);
            &&& pf.rgb_bit_count == 8
            &&& mask_selects(pf.a_mask, 1, input, p, unpacked_channel(f, input, p, 3))
        },
{
    if f == BitmapFormat::A8r8g8b8 || f == BitmapFormat::X8r8g8b8 {
        assert(unpacked_channel(f, input, p, 0) == input[4 * p + 2]);
        assert(unpacked_channel(f, input, p, 1) == input[4 * p + 1]);
        assert(unpacked_channel(f, input, p, 2) == input[4 * p + 0]);
        if f == BitmapFormat::A8r8g8b8 {
            assert(unpacked_channel(f, input, p, 3) == input[4 * p + 3]);
        }
    } else if f == BitmapFormat::A8y8 {
        assert(unpacked_channel(f, input, p, 0) == input[2 * p + 0]);
        assert(unpacked_channel(f, input, p, 3) == input[2 * p + 1]);
    } else if f == BitmapFormat::Y8 || f == BitmapFormat::R8 {
        assert(unpacked_channel(f, input, p, 0) == input[1 * p + 0]);
    } else if f == BitmapFormat::A8 {
        assert(unpacked_channel(f, input, p, 3) == input[1 * p + 0]);
    }
}

fn pf_fourcc(value: u32) -> (r: PixelFormat)
    ensures
        r == pf_of_fourcc(value),
{
    PixelFormat { flags: DDPF_FOURCC, fourcc: value, rgb_bit_count: 0, r_mask: 0, g_mask: 0, b_mask: 0, a_mask: 0 }
}

/// The legacy DDS pixel format of a format that has one.
fn pixel_format(format: BitmapFormat) -> (r: PixelFormat)
    requires
        has_legacy_pixel_format(format),
    ensures
        r == spec_pixel_format(format),
{
    match format {
        BitmapFormat::Dxt1 => pf_fourcc(fourcc([0x44, 0x58, 0x54, 0x31])),
        BitmapFormat::Dxt3 => pf_fourcc(fourcc([0x44, 0x58, 0x54, 0x33])),
        BitmapFormat::Dxt5 => pf_fourcc(fourcc([0x44, 0x58, 0x54, 0x35])),
        BitmapFormat::Dxt5a => pf_fourcc(fourcc([0x41, 0x54, 0x49, 0x31])),
        BitmapFormat::Dxn => pf_fourcc(fourcc([0x41, 0x54, 0x49, 0x32])),
        BitmapFormat::Q8w8v8u8 => pf_fourcc(63),
        BitmapFormat::Abgrfp16 => pf_fourcc(113),
        BitmapFormat::Abgrfp32 => pf_fourcc(116),
        BitmapFormat::A16b16g16r16 => pf_fourcc(36),
        BitmapFormat::A8 => PixelFormat {
            flags: DDPF_ALPHA, fourcc: 0, rgb_bit_count: 8, r_mask: 0, g_mask: 0, b_mask: 0, a_mask: 0xFF,
        },
        BitmapFormat::Y8 | BitmapFormat::R8 => PixelFormat {
            flags: DDPF_LUMINANCE, fourcc: 0, rgb_bit_count: 8, r_mask: 0xFF, g_mask: 0, b_mask: 0, a_mask: 0,
        },
        BitmapFormat::Ay8 => PixelFormat {
            flags: DDPF_ALPHA, fourcc: 0, rgb_bit_count: 8, r_mask: 0, g_mask: 0, b_mask: 0, a_mask: 0xFF,
        },
        BitmapFormat::A8y8 => PixelFormat {
            flags: DDPF_LUMINANCE | DDPF_ALPHAPIXELS, fourcc: 0, rgb_bit_count: 16,
            r_mask: 0x00FF, g_mask: 0, b_mask: 0, a_mask: 0xFF00,
        },
        BitmapFormat::A4r4g4b4 => PixelFormat {
            flags: DDPF_RGB | DDPF_ALPHAPIXELS, fourcc: 0, rgb_bit_count: 16,
            r_mask: 0x0F00, g_mask: 0x00F0, b_mask: 0x000F, a_mask: 0xF000,
        },
        BitmapFormat::X8r8g8b8 => PixelFormat {
            flags: DDPF_RGB, fourcc: 0, rgb_bit_count: 32,
            r_mask: 0x00FF0000, g_mask: 0x0000FF00, b_mask: 0x000000FF, a_mask: 0,
        },
        BitmapFormat::A8r8g8b8 => PixelFormat {
            flags: DDPF_RGB | DDPF_ALPHAPIXELS, fourcc: 0, rgb_bit_count: 32,
            r_mask: 0x00FF0000, g_mask: 0x0000FF00, b_mask: 0x000000FF, a_mask: 0xFF000000,
        },
        _ => PixelFormat {
            flags: DDPF_RGB, fourcc: 0, rgb_bit_count: 16, r_mask: 0xFF00, g_mask: 0x00FF, b_mask: 0, a_mask: 0,
        },
    }
}

/// DXGI format of `f` for the DXT10 header.
pub open spec fn spec_dxgi_format(f: BitmapFormat) -> u32 {
    match f {
        BitmapFormat::A8 => DXGI_FORMAT_A8_UNORM,
        BitmapFormat::Y8 | BitmapFormat::R8 | BitmapFormat::Ay8 => DXGI_FORMAT_R8_UNORM,
        BitmapFormat::A8y8 => DXGI_FORMAT_R8G8_UNORM,
        BitmapFormat::A4r4g4b4 => DXGI_FORMAT_B4G4R4A4_UNORM,
        BitmapFormat::X8r8g8b8 => DXGI_FORMAT_B8G8R8X8_UNORM,
        BitmapFormat::A8r8g8b8 => DXGI_FORMAT_B8G8R8A8_UNORM,
        BitmapFormat::Dxt1 => DXGI_FORMAT_BC1_UNORM,
        BitmapFormat::Dxt3 => DXGI_FORMAT_BC2_UNORM,
        BitmapFormat::Dxt5 => DXGI_FORMAT_BC3_UNORM,
        BitmapFormat::Dxt5a => DXGI_FORMAT_BC4_UNORM,
        BitmapFormat::Dxn => DXGI_FORMAT_BC5_UNORM,
        BitmapFormat::V8u8 => DXGI_FORMAT_R8G8_SNORM,
        BitmapFormat::Q8w8v8u8 => DXGI_FORMAT_R8G8B8A8_SNORM,
        BitmapFormat::Abgrfp16 => DXGI_FORMAT_R16G16B16A16_FLOAT,
        BitmapFormat::Abgrfp32 => DXGI_FORMAT_R32G32B32A32_FLOAT,
        BitmapFormat::A16b16g16r16 => DXGI_FORMAT_R16G16B16A16_UNORM,
        _ => DXGI_FORMAT_R16G16B16A16_SNORM,
    }
}

/// DXGI format of a format other than `dxn_mono_alpha` (which is
/// decoded to A8R8G8B8 before reaching the DXT10 writer).
fn dxgi_format(format: BitmapFormat) -> (r: u32)
    requires
        format != BitmapFormat::DxnMonoAlpha,
    ensures
        r == spec_dxgi_format(format),
{
    match format {
        BitmapFormat::A8 => DXGI_FORMAT_A8_UNORM,
        BitmapFormat::Y8 | BitmapFormat::R8 | BitmapFormat::Ay8 => DXGI_FORMAT_R8_UNORM,
        BitmapFormat::A8y8 => DXGI_FORMAT_R8G8_UNORM,
        BitmapFormat::A4r4g4b4 => DXGI_FORMAT_B4G4R4A4_UNORM,
        BitmapFormat::X8r8g8b8 => DXGI_FORMAT_B8G8R8X8_UNORM,
        BitmapFormat::A8r8g8b8 => DXGI_FORMAT_B8G8R8A8_UNORM,
        BitmapFormat::Dxt1 => DXGI_FORMAT_BC1_UNORM,
        BitmapFormat::Dxt3 => DXGI_FORMAT_BC2_UNORM,
        BitmapFormat::Dxt5 => DXGI_FORMAT_BC3_UNORM,
        BitmapFormat::Dxt5a => DXGI_FORMAT_BC4_UNORM,
        BitmapFormat::Dxn => DXGI_FORMAT_BC5_UNORM,
        BitmapFormat::V8u8 => DXGI_FORMAT_R8G8_SNORM,
        BitmapFormat::Q8w8v8u8 => DXGI_FORMAT_R8G8B8A8_SNORM,
        BitmapFormat::Abgrfp16 => DXGI_FORMAT_R16G16B16A16_FLOAT,
        BitmapFormat::Abgrfp32 => DXGI_FORMAT_R32G32B32A32_FLOAT,
        BitmapFormat::A16b16g16r16 => DXGI_FORMAT_R16G16B16A16_UNORM,
        _ => DXGI_FORMAT_R16G16B16A16_SNORM,
    }
}

/// Little-endian bytes of a `u32`.
pub open spec fn le32_bytes(v: u32) -> Seq<u8> {
    seq![(v % 256) as u8, ((v / 256) % 256) as u8, ((v / 65536) % 256) as u8, (v / 16777216) as u8]
}

/// Little-endian bytes of a sequence of `u32` words.
pub open spec fn words_le(words: Seq<u32>) -> Seq<u8>
    decreases words.len(),
{
    if words.len() == 0 {
        Seq::empty()
    } else {
        words_le(words.drop_last()) + le32_bytes(words.last())
    }
}

/// Append `v` little-endian.
fn write_u32(out: &mut Vec<u8>, v: u32)
    ensures
        final(out)@ == old(out)@ + le32_bytes(v),
{
    proof {
        crate::bytes::lemma_u32_byte_split(v);
    }
    out.push((v & 0xFF) as u8);
    out.push(((v >> 8) & 0xFF) as u8);
    out.push(((v >> 16) & 0xFF) as u8);
    out.push((v >> 24) as u8);
    assert(out@ =~= old(out)@ + le32_bytes(v));
}

/// Append every word little-endian.
fn write_words(out: &mut Vec<u8>, words: &Vec<u32>)
    ensures
        final(out)@ == old(out)@ + words_le(words@),
{
    let mut i: usize = 0;
    while i < words.len()
        invariant
            i <= words@.len(),
            out@ == old(out)@ + words_le(words@.subrange(0, i as int)),
        decreases words@.len() - i,
    {
        write_u32(out, words[i]);
        proof {
            let prefix = words@.subrange(0, i + 1);
            assert(prefix.drop_last() =~= words@.subrange(0, i as int));
            assert(prefix.last() == words@[i as int]);
        }
        i = i + 1;
    }
    assert(words@.subrange(0, words@.len() as int) =~= words@);
}

/// The `DDS ` magic.
pub open spec fn dds_magic() -> Seq<u8> {
    seq![0x44u8, 0x44u8, 0x53u8, 0x20u8]
}

/// The 124-byte `DDS_HEADER` as words, with `pf` as its pixel format.
pub open spec fn dds_header_words(flags: u32, height: u32, width: u32, pitch: u32, mips: u32, pf: PixelFormat,
    caps: u32, caps2: u32) -> Seq<u32> {
    seq![124u32, flags, height, width, pitch, 0u32, mips]
        + Seq::new(11, |i: int| 0u32)
        + seq![32u32, pf.flags, pf.fourcc, pf.rgb_bit_count, pf.r_mask, pf.g_mask, pf.b_mask, pf.a_mask]
        + seq![caps, caps2, 0u32, 0u32, 0u32]
}

/// Header flags shared by both writers.
pub open spec fn dds_flags(compressed: bool, mipmap_levels: u32) -> u32 {
    let base = DDSD_CAPS | DDSD_HEIGHT | DDSD_WIDTH | DDSD_PIXELFORMAT;
    let with_mips = if mipmap_levels > 1 { base | DDSD_MIPMAPCOUNT } else { base };
    with_mips | if compressed { DDSD_LINEARSIZE } else { DDSD_PITCH }
}

/// Pitch of an uncompressed row, or the linear size of a compressed
/// top level (truncated to 32 bits).
pub open spec fn pitch_or_linear_size(f: BitmapFormat, width: u32, height: u32, bits_per_pixel: u32) -> u32 {
    if f.spec_is_compressed() {
        f.spec_level_bytes(width as nat, height as nat) as u32
    } else {
        ((width * bits_per_pixel + 7) / 8) as u32
    }
}

/// Bytes of a legacy DDS file for one image.
pub open spec fn legacy_dds_bytes(f: BitmapFormat, width: u32, height: u32, mipmap_levels: u32, is_cube: bool,
    pixel_bytes: Seq<u8>) -> Seq<u8> {
    let pf = spec_pixel_format(f);
    let caps_mips = if mipmap_levels > 1 { DDSCAPS_TEXTURE | DDSCAPS_MIPMAP | DDSCAPS_COMPLEX } else { DDSCAPS_TEXTURE };
    let caps = if is_cube { caps_mips | DDSCAPS_COMPLEX } else { caps_mips };
    let caps2 = if is_cube { DDSCAPS2_CUBEMAP | DDSCAPS2_CUBEMAP_ALL_FACES } else { 0 };
    dds_magic() + words_le(dds_header_words(dds_flags(f.spec_is_compressed(), mipmap_levels), height, width,
        pitch_or_linear_size(f, width, height, pf.rgb_bit_count), mipmap_levels, pf, caps, caps2)) + pixel_bytes
}

/// Bytes of a DDS file with the DXT10 extension header.
pub open spec fn dx10_dds_bytes(f: BitmapFormat, width: u32, height: u32, mipmap_levels: u32, layer_count: u32,
    pixel_bytes: Seq<u8>) -> Seq<u8> {
    let pf = pf_of_fourcc(spec_fourcc(0x44, 0x58, 0x31, 0x30));
    let caps_mips = if mipmap_levels > 1 { DDSCAPS_TEXTURE | DDSCAPS_MIPMAP | DDSCAPS_COMPLEX } else { DDSCAPS_TEXTURE };
    let caps = if layer_count > 1 { caps_mips | DDSCAPS_COMPLEX } else { caps_mips };
    dds_magic() + words_le(dds_header_words(dds_flags(f.spec_is_compressed(), mipmap_levels), height, width,
        pitch_or_linear_size(f, width, height, (f.spec_bytes_per_pixel() * 8) as u32), mipmap_levels, pf, caps, 0))
        + words_le(seq![spec_dxgi_format(f), D3D10_RESOURCE_DIMENSION_TEXTURE2D, 0u32, layer_count, 0u32])
        + pixel_bytes
}

fn header_words(flags: u32, height: u32, width: u32, pitch: u32, mips: u32, pf: PixelFormat, caps: u32, caps2: u32)
    -> (r: Vec<u32>)
    ensures
        r@ == dds_header_words(flags, height, width, pitch, mips, pf, caps, caps2),
{
    let r = vec![
        124u32, flags, height, width, pitch, 0u32, mips,
        0u32, 0u32, 0u32, 0u32, 0u32, 0u32, 0u32, 0u32, 0u32, 0u32, 0u32,
        32u32, pf.flags, pf.fourcc, pf.rgb_bit_count, pf.r_mask, pf.g_mask, pf.b_mask, pf.a_mask,
        caps, caps2, 0u32, 0u32, 0u32,
    ];
    assert(r@ =~= dds_header_words(flags, height, width, pitch, mips, pf, caps, caps2));
    r
}

fn write_magic(out: &mut Vec<u8>)
    ensures
        final(out)@ == old(out)@ + dds_magic(),
{
    out.push(0x44);
    out.push(0x44);
    out.push(0x53);
    out.push(0x20);
    assert(out@ =~= old(out)@ + dds_magic());
}

/// Append a legacy DDS file (magic, 124-byte header, pixel bytes).
/// `mipmap_levels` counts the base level; `is_cube` marks six faces
/// already laid out in DDS face order in `pixel_bytes`.
pub fn write_dds(out: &mut Vec<u8>, format: BitmapFormat, width: u32, height: u32, mipmap_levels: u32, is_cube: bool,
    pixel_bytes: &[u8])
    requires
        has_legacy_pixel_format(format),
        format.spec_is_compressed() ==> width <= u32::MAX - 3 && height <= u32::MAX - 3
            && format.spec_level_bytes(width as nat, height as nat) <= u64::MAX,
        !format.spec_is_compressed() ==> width * spec_pixel_format(format).rgb_bit_count + 7 <= u32::MAX,
    ensures
        final(out)@ == old(out)@ + legacy_dds_bytes(format, width, height, mipmap_levels, is_cube, pixel_bytes@),
{
    let pf = pixel_format(format);
    let mut flags = DDSD_CAPS | DDSD_HEIGHT | DDSD_WIDTH | DDSD_PIXELFORMAT;
    if mipmap_levels > 1 {
        flags = flags | DDSD_MIPMAPCOUNT;
    }
    let pitch_or_linear = if format.is_compressed() {
        format.level_bytes(width, height) as u32
    } else {
        (width * pf.rgb_bit_count + 7) / 8
    };
    let size_flag = if format.is_compressed() { DDSD_LINEARSIZE } else { DDSD_PITCH };
    flags = flags | size_flag;
    let mut caps = DDSCAPS_TEXTURE;
    if mipmap_levels > 1 {
        caps = caps | DDSCAPS_MIPMAP | DDSCAPS_COMPLEX;
    }
    if is_cube {
        caps = caps | DDSCAPS_COMPLEX;
    }
    let caps2 = if is_cube { DDSCAPS2_CUBEMAP | DDSCAPS2_CUBEMAP_ALL_FACES } else { 0 };
    write_magic(out);
    let words = header_words(flags, height, width, pitch_or_linear, mipmap_levels, pf, caps, caps2);
    write_words(out, &words);
    let ghost before = out@;
    out.extend_from_slice(pixel_bytes);
    assert(out@ =~= before + pixel_bytes@);
    assert(out@ =~= old(out)@ + legacy_dds_bytes(format, width, height, mipmap_levels, is_cube, pixel_bytes@));
}

/// Append a DDS file with the DXT10 extension header (texture arrays
/// with `layer_count` layers, and formats with no legacy expression).
pub fn write_dds_dx10(out: &mut Vec<u8>, format: BitmapFormat, width: u32, height: u32, mipmap_levels: u32,
    layer_count: u32, pixel_bytes: &[u8])
    requires
        format != BitmapFormat::DxnMonoAlpha,
        format.spec_is_compressed() ==> width <= u32::MAX - 3 && height <= u32::MAX - 3
            && format.spec_level_bytes(width as nat, height as nat) <= u64::MAX,
        !format.spec_is_compressed() ==> width * (format.spec_bytes_per_pixel() * 8) + 7 <= u32::MAX,
    ensures
        final(out)@ == old(out)@ + dx10_dds_bytes(format, width, height, mipmap_levels, layer_count, pixel_bytes@),
{
    let mut flags = DDSD_CAPS | DDSD_HEIGHT | DDSD_WIDTH | DDSD_PIXELFORMAT;
    if mipmap_levels > 1 {
        flags = flags | DDSD_MIPMAPCOUNT;
    }
    let pitch_or_linear = if format.is_compressed() {
        format.level_bytes(width, height) as u32
    } else {
        let bpp = format.bytes_per_pixel() * 8;
        (width * bpp + 7) / 8
    };
    flags = flags | if format.is_compressed() { DDSD_LINEARSIZE } else { DDSD_PITCH };
    let mut caps = DDSCAPS_TEXTURE;
    if mipmap_levels > 1 {
        caps = caps | DDSCAPS_MIPMAP | DDSCAPS_COMPLEX;
    }
    if layer_count > 1 {
        caps = caps | DDSCAPS_COMPLEX;
    }
    let pf = pf_fourcc(fourcc([0x44, 0x58, 0x31, 0x30]));
    write_magic(out);
    let words = header_words(flags, height, width, pitch_or_linear, mipmap_levels, pf, caps, 0);
    write_words(out, &words);
    let ext = vec![dxgi_format(format), D3D10_RESOURCE_DIMENSION_TEXTURE2D, 0u32, layer_count, 0u32];
    assert(ext@ =~= seq![spec_dxgi_format(format), D3D10_RESOURCE_DIMENSION_TEXTURE2D, 0u32, layer_count, 0u32]);
    write_words(out, &ext);
    let ghost before = out@;
    out.extend_from_slice(pixel_bytes);
    assert(out@ =~= before + pixel_bytes@);
    assert(out@ =~= old(out)@ + dx10_dds_bytes(format, width, height, mipmap_levels, layer_count, pixel_bytes@));
}

//================================================================================
// dxn_mono_alpha decompression
//================================================================================

/// RGBA8 decoding (`[L, L, L, A]` per pixel) of the first `levels` mip
/// levels of one `dxn_mono_alpha` surface whose bytes start `input`.
pub open spec fn mono_alpha_chain(input: Seq<u8>, width: u32, height: u32, levels: nat) -> Seq<u8>
    decreases levels,
{
    if levels == 0 {
        Seq::empty()
    } else {
        let l = (levels - 1) as nat;
        mono_alpha_chain(input, width, height, l) + decoded_level(
            BitmapFormat::DxnMonoAlpha,
            mip_extent(width, l) as nat,
            mip_extent(height, l) as nat,
            input.skip(BitmapFormat::DxnMonoAlpha.spec_surface_bytes(width, height, l) as int),
        )
    }
}

/// The decoding of `layers` stacked surfaces, layer-major.
pub open spec fn mono_alpha_layers(input: Seq<u8>, width: u32, height: u32, levels: nat, layers: nat) -> Seq<u8>
    decreases layers,
{
    if layers == 0 {
        Seq::empty()
    } else {
        let k = (layers - 1) as nat;
        let surface = BitmapFormat::DxnMonoAlpha.spec_surface_bytes(width, height, levels);
        mono_alpha_layers(input, width, height, levels, k) + mono_alpha_chain(
            input.skip((k * surface) as int),
            width,
            height,
            levels,
        )
    }
}

/// One level of one layer decodes as the generic block decoder does:
/// `decode_dxn_mono_alpha(input, w, h, 1, 1)` is byte for byte what
/// `decode_to_rgba8(DxnMonoAlpha, w, h, input)` gives.
pub proof fn lemma_mono_alpha_single_level(input: Seq<u8>, width: u32, height: u32)
    requires
        width >= 1,
        height >= 1,
    ensures
        mono_alpha_layers(input, width, height, 1, 1) == decoded_level(
            BitmapFormat::DxnMonoAlpha,
            width as nat,
            height as nat,
            input,
        ),
{
    assert(super::format::pow2(0) == 1);
    assert((width as nat) / 1 == width as nat);
    assert((height as nat) / 1 == height as nat);
    assert(mip_extent(width, 0) == width);
    assert(mip_extent(height, 0) == height);
    assert(input.skip(0) =~= input);
    assert(mono_alpha_chain(input, width, height, 0) =~= Seq::<u8>::empty());
    assert(mono_alpha_layers(input, width, height, 1, 0) =~= Seq::<u8>::empty());
    let f = BitmapFormat::DxnMonoAlpha;
    assert(f.spec_surface_bytes(width, height, 0) == 0);
    let surface = f.spec_surface_bytes(width, height, 1);
    assert((0 * surface) as int == 0) by (nonlinear_arith);
    assert(input.skip((0 * surface) as int) == input);
    let lvl = decoded_level(f, width as nat, height as nat, input);
    assert(mono_alpha_chain(input, width, height, 1) == Seq::<u8>::empty() + lvl);
    assert(mono_alpha_chain(input, width, height, 1) =~= lvl);
    assert(mono_alpha_layers(input, width, height, 1, 1) == Seq::<u8>::empty() + mono_alpha_chain(input, width, height, 1));
    assert(mono_alpha_layers(input, width, height, 1, 1) =~= decoded_level(
        BitmapFormat::DxnMonoAlpha,
        width as nat,
        height as nat,
        input,
    ));
}

/// Decode a stacked `dxn_mono_alpha` mip chain (optionally cube faces or
/// array layers) into RGBA8 bytes (`[L, L, L, A]`: luminance from the
/// first sub-block of each 16-byte block, alpha from the second), laid
/// out layer-major like the input.
pub fn decode_dxn_mono_alpha(input: &[u8], width: u32, height: u32, mipmap_levels: u32, layers: u32) -> (out: Vec<u8>)
    requires
        mipmap_levels <= 32,
        width <= u32::MAX - 3,
        height <= u32::MAX - 3,
        4 * ((mip_extent(width, 0) as int) * (mip_extent(height, 0) as int)) <= usize::MAX,
        (layers as int) * BitmapFormat::DxnMonoAlpha.spec_surface_bytes(width, height, mipmap_levels as nat)
            <= input@.len(),
    ensures
        out@ == mono_alpha_layers(input@, width, height, mipmap_levels as nat, layers as nat),
{
    let ghost f = BitmapFormat::DxnMonoAlpha;
    let ghost surface = f.spec_surface_bytes(width, height, mipmap_levels as nat);
    let ghost w0 = mip_extent(width, 0) as int;
    let ghost h0 = mip_extent(height, 0) as int;
    let input_len = input.len();
    let mut output: Vec<u8> = Vec::new();
    let mut input_offset: usize = 0;
    let mut layer: u32 = 0;
    while layer < layers
        invariant
            layer <= layers,
            mipmap_levels <= 32,
            width <= u32::MAX - 3,
            height <= u32::MAX - 3,
            w0 == mip_extent(width, 0) as int,
            h0 == mip_extent(height, 0) as int,
            4 * (w0 * h0) <= usize::MAX,
            surface == f.spec_surface_bytes(width, height, mipmap_levels as nat),
            f == BitmapFormat::DxnMonoAlpha,
            input@.len() == input_len,
            (layers as int) * surface <= input@.len(),
            input_offset as int == (layer as int) * surface,
            output@ == mono_alpha_layers(input@, width, height, mipmap_levels as nat, layer as nat),
        decreases layers - layer,
    {
        proof {
            assert((layer as int + 1) * surface <= (layers as int) * surface) by (nonlinear_arith)
                requires
                    layer < layers,
                    surface >= 0,
            ;
            assert((layer as int + 1) * surface == (layer as int) * surface + surface) by (nonlinear_arith);
        }
        let ghost layer_start = input_offset as int;
        let ghost before = output@;
        let mut level: u32 = 0;
        while level < mipmap_levels
            invariant
                level <= mipmap_levels <= 32,
                width <= u32::MAX - 3,
                height <= u32::MAX - 3,
                w0 == mip_extent(width, 0) as int,
                h0 == mip_extent(height, 0) as int,
                4 * (w0 * h0) <= usize::MAX,
                surface == f.spec_surface_bytes(width, height, mipmap_levels as nat),
                f == BitmapFormat::DxnMonoAlpha,
                input@.len() == input_len,
                0 <= layer_start,
                layer_start + surface <= input@.len(),
                input_offset as int == layer_start + f.spec_surface_bytes(width, height, level as nat),
                output@ == before + mono_alpha_chain(input@.skip(layer_start), width, height, level as nat),
            decreases mipmap_levels - level,
        {
            proof {
                lemma_surface_monotone(f, width, height, (level + 1) as nat, mipmap_levels as nat);
                lemma_mip_extent_le(width, level as nat);
                lemma_mip_extent_le(height, level as nat);
                lemma_mip_extent_le(width, 0);
                lemma_mip_extent_le(height, 0);
            }
            let w = mip_dim(width, level);
            let h = mip_dim(height, level);
            proof {
                assert(crate::bitmap::format::pow2(0) == 1);
                assert(w as int <= w0 && h as int <= h0);
                assert(f.spec_surface_bytes(width, height, (level + 1) as nat)
                    == f.spec_surface_bytes(width, height, level as nat) + f.spec_level_bytes(w as nat, h as nat));
                assert(4 * ((w as int) * (h as int)) <= 4 * (w0 * h0)) by (nonlinear_arith)
                    requires
                        0 <= w as int <= w0,
                        0 <= h as int <= h0,
                ;
            }
            let lb = BitmapFormat::DxnMonoAlpha.level_bytes(w, h);
            let slice = slice_subrange(input, input_offset, input.len());
            let mut mip = decode_blocks(BitmapFormat::DxnMonoAlpha, slice, w, h);
            proof {
                let rest = input@.skip(layer_start).skip(f.spec_surface_bytes(width, height, level as nat) as int);
                assert(rest =~= slice@);
                assert(mip@ =~= decoded_level(f, w as nat, h as nat, rest));
                assert(mono_alpha_chain(input@.skip(layer_start), width, height, (level + 1) as nat)
                    == mono_alpha_chain(input@.skip(layer_start), width, height, level as nat)
                        + decoded_level(f, w as nat, h as nat, rest));
            }
            let ghost prior = output@;
            output.append(&mut mip);
            assert(output@ =~= before + mono_alpha_chain(input@.skip(layer_start), width, height, (level + 1) as nat));
            input_offset = input_offset + lb as usize;
            level = level + 1;
        }
        proof {
            assert(input@.skip(layer_start) =~= input@.skip(((layer as nat) * surface) as int));
        }
        layer = layer + 1;
    }
    output
}
} // verus!
