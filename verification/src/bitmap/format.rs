//! Bitmap format identifiers and the size arithmetic of their surfaces.
use vstd::prelude::*;

use crate::text::str_eq;

verus! {

/// A bitmap pixel format, named after the schema's `bitmap_formats`
/// options.
#[derive(Debug, Clone, Copy, PartialEq, Eq, Structural)]
pub enum BitmapFormat {
    A8,
    Y8,
    R8,
    Ay8,
    A8y8,
    A4r4g4b4,
    X8r8g8b8,
    A8r8g8b8,
    Dxt1,
    Dxt3,
    Dxt5,
    Dxt5a,
    Dxn,
    V8u8,
    Q8w8v8u8,
    Abgrfp16,
    Abgrfp32,
    A16b16g16r16,
    Signedr16g16b16a16,
    /// Halo-specific BC5-shaped layout whose two sub-blocks carry
    /// luminance and alpha.
    DxnMonoAlpha,
}

/// The format a schema option name denotes, if it is one we model.
pub open spec fn schema_format(name: Seq<char>) -> Option<BitmapFormat> {
    if name == "a8"@ { Some(BitmapFormat::A8) }
    else if name == "y8"@ { Some(BitmapFormat::Y8) }
    else if name == "r8"@ { Some(BitmapFormat::R8) }
    else if name == "ay8"@ { Some(BitmapFormat::Ay8) }
    else if name == "a8y8"@ { Some(BitmapFormat::A8y8) }
    else if name == "a4r4g4b4"@ { Some(BitmapFormat::A4r4g4b4) }
    else if name == "x8r8g8b8"@ { Some(BitmapFormat::X8r8g8b8) }
    else if name == "a8r8g8b8"@ { Some(BitmapFormat::A8r8g8b8) }
    else if name == "dxt1"@ { Some(BitmapFormat::Dxt1) }
    else if name == "dxt3"@ { Some(BitmapFormat::Dxt3) }
    else if name == "dxt5"@ { Some(BitmapFormat::Dxt5) }
    else if name == "dxt5a"@ { Some(BitmapFormat::Dxt5a) }
    else if name == "dxn"@ { Some(BitmapFormat::Dxn) }
    else if name == "v8u8"@ { Some(BitmapFormat::V8u8) }
    else if name == "q8w8v8u8"@ { Some(BitmapFormat::Q8w8v8u8) }
    else if name == "abgrfp16"@ { Some(BitmapFormat::Abgrfp16) }
    else if name == "abgrfp32"@ { Some(BitmapFormat::Abgrfp32) }
    else if name == "a16b16g16r16"@ { Some(BitmapFormat::A16b16g16r16) }
    else if name == "signedr16g16b16a16"@ { Some(BitmapFormat::Signedr16g16b16a16) }
    else if name == "dxn_mono_alpha"@ { Some(BitmapFormat::DxnMonoAlpha) }
    else { None }
}

impl BitmapFormat {
    /// Whether pixels are stored as 4x4 blocks.
    pub open spec fn spec_is_compressed(self) -> bool {
        match self {
            BitmapFormat::Dxt1 | BitmapFormat::Dxt3 | BitmapFormat::Dxt5 | BitmapFormat::Dxt5a
            | BitmapFormat::Dxn | BitmapFormat::DxnMonoAlpha => true,
            _ => false,
        }
    }

    /// Bytes per 4x4 block (0 for per-pixel formats).
    pub open spec fn spec_block_bytes(self) -> u32 {
        match self {
            BitmapFormat::Dxt1 | BitmapFormat::Dxt5a => 8,
            BitmapFormat::Dxt3 | BitmapFormat::Dxt5 | BitmapFormat::Dxn
            | BitmapFormat::DxnMonoAlpha => 16,
            _ => 0,
        }
    }

    /// Bytes per pixel (0 for block formats).
    pub open spec fn spec_bytes_per_pixel(self) -> u32 {
        match self {
            BitmapFormat::A8 | BitmapFormat::Y8 | BitmapFormat::R8 | BitmapFormat::Ay8 => 1,
            BitmapFormat::A8y8 | BitmapFormat::A4r4g4b4 | BitmapFormat::V8u8 => 2,
            BitmapFormat::X8r8g8b8 | BitmapFormat::A8r8g8b8 | BitmapFormat::Q8w8v8u8 => 4,
            BitmapFormat::A16b16g16r16 | BitmapFormat::Signedr16g16b16a16
            | BitmapFormat::Abgrfp16 => 8,
            BitmapFormat::Abgrfp32 => 16,
            _ => 0,
        }
    }

    /// Bytes of one mip level of `width` x `height` pixels.
    pub open spec fn spec_level_bytes(self, width: nat, height: nat) -> nat {
        if self.spec_is_compressed() {
            blocks_across(width) * blocks_across(height) * (self.spec_block_bytes() as nat)
        } else {
            width * height * (self.spec_bytes_per_pixel() as nat)
        }
    }

    /// Bytes of the first `levels` mip levels of a chain whose base is
    /// `width` x `height`.
    pub open spec fn spec_surface_bytes(self, width: u32, height: u32, levels: nat) -> nat
        decreases levels,
    {
        if levels == 0 {
            0
        } else {
            self.spec_surface_bytes(width, height, (levels - 1) as nat)
                + self.spec_level_bytes(
                    mip_extent(width, (levels - 1) as nat) as nat,
                    mip_extent(height, (levels - 1) as nat) as nat,
                )
        }
    }

    /// Resolve a schema `bitmap_formats` option name.
    pub fn from_schema_name(name: &str) -> (r: Option<Self>)
        ensures
            r == schema_format(name@),
    {
        if str_eq(name, "a8") { Some(Self::A8) }
        else if str_eq(name, "y8") { Some(Self::Y8) }
        else if str_eq(name, "r8") { Some(Self::R8) }
        else if str_eq(name, "ay8") { Some(Self::Ay8) }
        else if str_eq(name, "a8y8") { Some(Self::A8y8) }
        else if str_eq(name, "a4r4g4b4") { Some(Self::A4r4g4b4) }
        else if str_eq(name, "x8r8g8b8") { Some(Self::X8r8g8b8) }
        else if str_eq(name, "a8r8g8b8") { Some(Self::A8r8g8b8) }
        else if str_eq(name, "dxt1") { Some(Self::Dxt1) }
        else if str_eq(name, "dxt3") { Some(Self::Dxt3) }
        else if str_eq(name, "dxt5") { Some(Self::Dxt5) }
        else if str_eq(name, "dxt5a") { Some(Self::Dxt5a) }
        else if str_eq(name, "dxn") { Some(Self::Dxn) }
        else if str_eq(name, "v8u8") { Some(Self::V8u8) }
        else if str_eq(name, "q8w8v8u8") { Some(Self::Q8w8v8u8) }
        else if str_eq(name, "abgrfp16") { Some(Self::Abgrfp16) }
        else if str_eq(name, "abgrfp32") { Some(Self::Abgrfp32) }
        else if str_eq(name, "a16b16g16r16") { Some(Self::A16b16g16r16) }
        else if str_eq(name, "signedr16g16b16a16") { Some(Self::Signedr16g16b16a16) }
        else if str_eq(name, "dxn_mono_alpha") { Some(Self::DxnMonoAlpha) }
        else { None }
    }

    /// Whether this format stores pixels as 4x4 blocks.
    pub fn is_compressed(self) -> (r: bool)
        ensures
            r == self.spec_is_compressed(),
    {
        match self {
            Self::Dxt1 | Self::Dxt3 | Self::Dxt5 | Self::Dxt5a | Self::Dxn | Self::DxnMonoAlpha => true,
            _ => false,
        }
    }

    /// Whether the format only has a DDS expression through the DXT10
    /// extension header.
    pub fn requires_dxt10(self) -> (r: bool)
        ensures
            r == (self == BitmapFormat::Signedr16g16b16a16),
    {
        match self {
            Self::Signedr16g16b16a16 => true,
            _ => false,
        }
    }

    /// Whether channels are stored as signed integers.
    pub fn is_signed(self) -> (r: bool)
        ensures
            r == (self == BitmapFormat::V8u8 || self == BitmapFormat::Q8w8v8u8
                || self == BitmapFormat::Signedr16g16b16a16),
    {
        match self {
            Self::V8u8 | Self::Q8w8v8u8 | Self::Signedr16g16b16a16 => true,
            _ => false,
        }
    }

    /// Whether the format stores floating-point (HDR) channels.
    pub fn is_hdr(self) -> (r: bool)
        ensures
            r == (self == BitmapFormat::Abgrfp16 || self == BitmapFormat::Abgrfp32),
    {
        match self {
            Self::Abgrfp16 | Self::Abgrfp32 => true,
            _ => false,
        }
    }

    /// Bytes per stored 4x4 block; 0 for per-pixel formats.
    pub fn block_bytes(self) -> (r: u32)
        ensures
            r == self.spec_block_bytes(),
    {
        match self {
            Self::Dxt1 | Self::Dxt5a => 8,
            Self::Dxt3 | Self::Dxt5 | Self::Dxn | Self::DxnMonoAlpha => 16,
            _ => 0,
        }
    }

    /// Bytes per pixel; 0 for block formats.
    pub fn bytes_per_pixel(self) -> (r: u32)
        ensures
            r == self.spec_bytes_per_pixel(),
    {
        match self {
            Self::A8 | Self::Y8 | Self::R8 | Self::Ay8 => 1,
            Self::A8y8 | Self::A4r4g4b4 | Self::V8u8 => 2,
            Self::X8r8g8b8 | Self::A8r8g8b8 | Self::Q8w8v8u8 => 4,
            Self::A16b16g16r16 | Self::Signedr16g16b16a16 | Self::Abgrfp16 => 8,
            Self::Abgrfp32 => 16,
            _ => 0,
        }
    }

    /// Bytes consumed by one mip level. Block formats round each
    /// dimension up to whole 4x4 blocks, with at least one block.
    pub fn level_bytes(self, width: u32, height: u32) -> (r: u64)
        requires
            self.spec_is_compressed() ==> width <= u32::MAX - 3 && height <= u32::MAX - 3,
            self.spec_level_bytes(width as nat, height as nat) <= u64::MAX,
        ensures
            r == self.spec_level_bytes(width as nat, height as nat),
    {
        if self.is_compressed() {
            let bw = (width + 3) / 4;
            let blocks_w = if bw > 1 { bw } else { 1 };
            let bh = (height + 3) / 4;
            let blocks_h = if bh > 1 { bh } else { 1 };
            let bb = self.block_bytes();
            proof {
                assert(blocks_w as nat == blocks_across(width as nat));
                assert(blocks_h as nat == blocks_across(height as nat));
                lemma_mul3_bound(blocks_w as nat, blocks_h as nat, bb as nat);
            }
            blocks_w as u64 * blocks_h as u64 * bb as u64
        } else {
            let bpp = self.bytes_per_pixel();
            proof {
                lemma_mul3_bound(width as nat, height as nat, bpp as nat);
            }
            width as u64 * height as u64 * bpp as u64
        }
    }

    /// Total bytes of a mip chain of `mipmap_levels` levels over the
    /// base dimensions (each level halves, never below 1).
    pub fn surface_bytes(self, width: u32, height: u32, mipmap_levels: u32) -> (r: u64)
        requires
            mipmap_levels <= 32,
            self.spec_is_compressed() ==> width <= u32::MAX - 3 && height <= u32::MAX - 3,
            self.spec_surface_bytes(width, height, mipmap_levels as nat) <= u64::MAX,
        ensures
            r == self.spec_surface_bytes(width, height, mipmap_levels as nat),
    {
        let mut total: u64 = 0;
        let mut i: u32 = 0;
        while i < mipmap_levels
            invariant
                i <= mipmap_levels <= 32,
                self.spec_is_compressed() ==> width <= u32::MAX - 3 && height <= u32::MAX - 3,
                self.spec_surface_bytes(width, height, mipmap_levels as nat) <= u64::MAX,
                total == self.spec_surface_bytes(width, height, i as nat),
            decreases mipmap_levels - i,
        {
            proof {
                lemma_surface_monotone(self, width, height, (i + 1) as nat, mipmap_levels as nat);
                lemma_mip_extent_le(width, i as nat);
                lemma_mip_extent_le(height, i as nat);
            }
            let w = mip_dim(width, i);
            let h = mip_dim(height, i);
            let lb = self.level_bytes(w, h);
            total = total + lb;
            i = i + 1;
        }
        total
    }
}

/// Number of 4-pixel blocks covering `n` pixels, at least one.
pub open spec fn blocks_across(n: nat) -> nat {
    let b = (n + 3) / 4;
    if b > 1 { b } else { 1 }
}

/// Extent of mip level `level` of a dimension: `n >> level`, at least 1.
pub open spec fn mip_extent(n: u32, level: nat) -> u32 {
    let s = if level < 32 { (n as nat) / pow2(level) } else { 0 };
    if s > 1 { s as u32 } else { 1 }
}

/// `2^e` over the naturals.
pub open spec fn pow2(e: nat) -> nat
    decreases e,
{
    if e == 0 { 1 } else { 2 * pow2((e - 1) as nat) }
}

pub(crate) proof fn lemma_pow2_pos(e: nat)
    ensures
        pow2(e) >= 1,
    decreases e,
{
    if e > 0 {
        lemma_pow2_pos((e - 1) as nat);
    }
}

proof fn lemma_mul3_bound(a: nat, b: nat, c: nat)
    requires
        c >= 1,
    ensures
        a * b <= a * b * c,
{
    assert(a * b <= a * b * c) by (nonlinear_arith)
        requires
            c >= 1,
    ;
}

pub(crate) proof fn lemma_mip_extent_le(n: u32, level: nat)
    requires
        level < 32,
    ensures
        mip_extent(n, level) <= n || mip_extent(n, level) == 1,
        mip_extent(n, level) >= 1,
{
    lemma_pow2_pos(level);
    assert((n as nat) / pow2(level) <= n as nat) by (nonlinear_arith)
        requires
            pow2(level) >= 1,
    ;
}

pub(crate) proof fn lemma_surface_monotone(f: BitmapFormat, w: u32, h: u32, a: nat, b: nat)
    requires
        a <= b,
    ensures
        f.spec_surface_bytes(w, h, a) <= f.spec_surface_bytes(w, h, b),
    decreases b - a,
{
    if a < b {
        lemma_surface_monotone(f, w, h, a, (b - 1) as nat);
    }
}

/// A chain of no levels has no bytes, and each further level adds the
/// bytes of a level whose sides are the base sides shifted right by the
/// level's index, at least 1.
pub proof fn lemma_surface_bytes_step(f: BitmapFormat, width: u32, height: u32, n: u32)
    requires
        n < 32,
    ensures
        f.spec_surface_bytes(width, height, 0) == 0,
        f.spec_surface_bytes(width, height, (n + 1) as nat) == f.spec_surface_bytes(width, height, n as nat)
            + f.spec_level_bytes(
            (if width >> n > 1 { width >> n } else { 1 }) as nat,
            (if height >> n > 1 { height >> n } else { 1 }) as nat,
        ),
{
    lemma_shr_is_div_pow2(width, n);
    lemma_shr_is_div_pow2(height, n);
    assert(((n + 1) as nat - 1) as nat == n as nat);
}

/// `n >> level`, clamped to at least 1.
pub fn mip_dim(n: u32, level: u32) -> (r: u32)
    requires
        level < 32,
    ensures
        r == mip_extent(n, level as nat),
{
    let s = n >> level;
    proof {
        lemma_shr_is_div_pow2(n, level);
    }
    if s > 1 { s } else { 1 }
}

proof fn lemma_shr_is_div_pow2(n: u32, level: u32)
    requires
        level < 32,
    ensures
        (n >> level) as nat == (n as nat) / pow2(level as nat),
    decreases level,
{
    if level == 0 {
        assert(n >> 0u32 == n) by (bit_vector);
        assert(pow2(0) == 1);
    } else {
        lemma_shr_is_div_pow2(n, (level - 1) as u32);
        assert(n >> level == (n >> ((level - 1) as u32)) / 2) by (bit_vector)
            requires
                0 < level < 32,
        ;
        lemma_pow2_pos((level - 1) as nat);
        let p = pow2((level - 1) as nat);
        assert(pow2(level as nat) == 2 * p);
        assert(((level - 1) as u32) as nat == (level - 1) as nat);
        assert((n as nat) / p / 2 == (n as nat) / (2 * p)) by (nonlinear_arith)
            requires
                p >= 1,
        ;
        let q = n >> ((level - 1) as u32);
        assert(q as nat == (n as nat) / p);
        assert((n >> level) as nat == (q as nat) / 2);
    }
}

/// Per-image gamma curve (`e_bitmap_curve`).
#[derive(Debug, Clone, Copy, PartialEq, Eq, Structural)]
pub enum BitmapCurve {
    Unknown,
    XrgbGamma2,
    Gamma2,
    Linear,
    OffsetLog,
    Srgb,
}

impl BitmapCurve {
    /// Map a stored curve index; out-of-range values are `Unknown`.
    pub fn from_index(index: u8) -> (r: Self)
        ensures
            r == (if index == 1 { BitmapCurve::XrgbGamma2 }
                else if index == 2 { BitmapCurve::Gamma2 }
                else if index == 3 { BitmapCurve::Linear }
                else if index == 4 { BitmapCurve::OffsetLog }
                else if index == 5 { BitmapCurve::Srgb }
                else { BitmapCurve::Unknown }),
    {
        match index {
            1 => Self::XrgbGamma2,
            2 => Self::Gamma2,
            3 => Self::Linear,
            4 => Self::OffsetLog,
            5 => Self::Srgb,
            _ => Self::Unknown,
        }
    }
}

impl BitmapFormat {
    /// The variant's name as written in the source (its `Debug` text).
    pub open spec fn spec_variant_name(self) -> Seq<char> {
        match self {
            BitmapFormat::A8 => "A8"@,
            BitmapFormat::Y8 => "Y8"@,
            BitmapFormat::R8 => "R8"@,
            BitmapFormat::Ay8 => "Ay8"@,
            BitmapFormat::A8y8 => "A8y8"@,
            BitmapFormat::A4r4g4b4 => "A4r4g4b4"@,
            BitmapFormat::X8r8g8b8 => "X8r8g8b8"@,
            BitmapFormat::A8r8g8b8 => "A8r8g8b8"@,
            BitmapFormat::Dxt1 => "Dxt1"@,
            BitmapFormat::Dxt3 => "Dxt3"@,
            BitmapFormat::Dxt5 => "Dxt5"@,
            BitmapFormat::Dxt5a => "Dxt5a"@,
            BitmapFormat::Dxn => "Dxn"@,
            BitmapFormat::V8u8 => "V8u8"@,
            BitmapFormat::Q8w8v8u8 => "Q8w8v8u8"@,
            BitmapFormat::Abgrfp16 => "Abgrfp16"@,
            BitmapFormat::Abgrfp32 => "Abgrfp32"@,
            BitmapFormat::A16b16g16r16 => "A16b16g16r16"@,
            BitmapFormat::Signedr16g16b16a16 => "Signedr16g16b16a16"@,
            BitmapFormat::DxnMonoAlpha => "DxnMonoAlpha"@,
        }
    }

    /// The variant's name as written in the source (its `Debug` text).
    pub fn variant_name(self) -> (r: &'static str)
        ensures
            r@ == self.spec_variant_name(),
    {
        match self {
            BitmapFormat::A8 => "A8",
            BitmapFormat::Y8 => "Y8",
            BitmapFormat::R8 => "R8",
            BitmapFormat::Ay8 => "Ay8",
            BitmapFormat::A8y8 => "A8y8",
            BitmapFormat::A4r4g4b4 => "A4r4g4b4",
            BitmapFormat::X8r8g8b8 => "X8r8g8b8",
            BitmapFormat::A8r8g8b8 => "A8r8g8b8",
            BitmapFormat::Dxt1 => "Dxt1",
            BitmapFormat::Dxt3 => "Dxt3",
            BitmapFormat::Dxt5 => "Dxt5",
            BitmapFormat::Dxt5a => "Dxt5a",
            BitmapFormat::Dxn => "Dxn",
            BitmapFormat::V8u8 => "V8u8",
            BitmapFormat::Q8w8v8u8 => "Q8w8v8u8",
            BitmapFormat::Abgrfp16 => "Abgrfp16",
            BitmapFormat::Abgrfp32 => "Abgrfp32",
            BitmapFormat::A16b16g16r16 => "A16b16g16r16",
            BitmapFormat::Signedr16g16b16a16 => "Signedr16g16b16a16",
            BitmapFormat::DxnMonoAlpha => "DxnMonoAlpha",
        }
    }
}

} // verus!
