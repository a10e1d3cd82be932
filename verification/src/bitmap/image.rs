//! The images of a `.bitmap` tag: the `bitmaps[]` block's metadata and
//! the shared `processed pixel data` blob each image slices.
use vstd::prelude::*;
use vstd::string::StringExecFns;

use super::dds::{decode_dxn_mono_alpha, dx10_dds_bytes, legacy_dds_bytes, mono_alpha_layers, write_dds, write_dds_dx10};
use super::format::{mip_extent, schema_format, BitmapCurve, BitmapFormat};
use super::BitmapError;
use crate::api::{block_at, element_at, opt_text, read_enum_name_spec, read_int_spec, data_at, TagBlock, TagStruct};
use crate::data::TagBlockData;
use crate::file::TagFile;
use crate::layout::TagLayout;
use crate::path::{lookup, path_segments};
use crate::text::str_eq;

verus! {

/// `v` clamped below at 0, as `u32`.
pub open spec fn nonneg_u32(v: i64) -> u32 {
    (if v < 0 {
        0
    } else {
        v
    }) as u32
}

/// The integer of `o`, or `d`.
pub open spec fn or_default(o: Option<i64>, d: i64) -> i64 {
    match o {
        Some(v) => v,
        None => d,
    }
}

/// `a * b`, saturating at `u64::MAX`.
pub open spec fn sat_mul(a: u64, b: u64) -> u64 {
    if a * b > u64::MAX {
        u64::MAX
    } else {
        (a * b) as u64
    }
}

/// A bitmap tag: its `bitmaps[]` block and `processed pixel data`.
pub struct Bitmap<'a> {
    pixels: &'a [u8],
    bitmaps: TagBlock<'a>,
}

/// One element of `bitmaps[]` and the pixel blob it slices.
#[derive(Clone, Copy)]
pub struct BitmapImage<'a> {
    elem: TagStruct<'a>,
    pixels: &'a [u8],
}

/// The field that `path` names in the tag's root element.
pub open spec fn root_field(tag: TagFile, path: Seq<char>) -> Option<(crate::data::TagStructData, Seq<u8>, int)> {
    let root = element_at(tag.tag_stream.layout, tag.tag_stream.data, 0);
    lookup(tag.tag_stream.layout, root.0, root.1, path_segments(vstd::utf8::encode_utf8(path)))
}

/// The pixel blob of a bitmap tag.
pub open spec fn tag_pixels(tag: TagFile) -> Option<Seq<u8>> {
    match root_field(tag, "processed pixel data"@) {
        Some((d, _, fi)) => data_at(tag.tag_stream.layout, d, fi),
        None => None,
    }
}

/// The `bitmaps` block of a bitmap tag.
pub open spec fn tag_bitmaps(tag: TagFile) -> Option<TagBlockData> {
    match root_field(tag, "bitmaps"@) {
        Some((d, _, fi)) => block_at(tag.tag_stream.layout, d, fi),
        None => None,
    }
}

impl<'a> Bitmap<'a> {
    /// The pixel blob.
    pub closed spec fn spec_pixels(&self) -> Seq<u8> {
        self.pixels@
    }

    /// The `bitmaps` block.
    pub closed spec fn spec_bitmaps(&self) -> TagBlockData {
        self.bitmaps.spec_data()
    }

    /// The layout.
    pub closed spec fn spec_layout(&self) -> TagLayout {
        self.bitmaps.spec_layout()
    }

    /// Wrap a bitmap tag: its root's `processed pixel data` blob and
    /// `bitmaps` block; `NotABitmapTag` when either is missing.
    pub fn new(tag: &'a TagFile) -> (r: Result<Self, BitmapError>)
        requires
            tag.wf(),
            tag.tag_stream.data.elements@.len() > 0,
        ensures
            r is Ok <==> tag_pixels(*tag) is Some && tag_bitmaps(*tag) is Some,
            r matches Err(e) ==> e is NotABitmapTag,
            r matches Ok(b) ==> {
                &&& Some(b.spec_pixels()) == tag_pixels(*tag)
                &&& Some(b.spec_bitmaps()) == tag_bitmaps(*tag)
                &&& b.spec_layout() == tag.tag_stream.layout
            },
    {
        let root = tag.root();
        proof {
            reveal_strlit("processed pixel data");
            reveal_strlit("bitmaps");
        }
        let pixels = match root.field_path("processed pixel data") {
            Some(f) => match f.as_data() {
                Some(p) => p,
                None => {
                    return Err(BitmapError::NotABitmapTag);
                },
            },
            None => {
                return Err(BitmapError::NotABitmapTag);
            },
        };
        let bitmaps = match root.field_path("bitmaps") {
            Some(f) => match f.as_block() {
                Some(b) => b,
                None => {
                    return Err(BitmapError::NotABitmapTag);
                },
            },
            None => {
                return Err(BitmapError::NotABitmapTag);
            },
        };
        Ok(Bitmap { pixels, bitmaps })
    }

    /// Number of images.
    pub fn len(&self) -> (r: usize)
        ensures
            r == self.spec_bitmaps().elements@.len(),
    {
        self.bitmaps.len()
    }

    /// Whether the tag has no images.
    pub fn is_empty(&self) -> (r: bool)
        ensures
            r == (self.spec_bitmaps().elements@.len() == 0),
    {
        self.bitmaps.is_empty()
    }

    /// Image `index`, or `None` past the end.
    pub fn image(&self, index: usize) -> (r: Option<BitmapImage<'a>>)
        ensures
            r is Some <==> index < self.spec_bitmaps().elements@.len(),
            r matches Some(img) ==> {
                &&& (img.spec_elem().spec_data(), img.spec_elem().spec_raw()) == element_at(
                    self.spec_layout(),
                    self.spec_bitmaps(),
                    index as int,
                )
                &&& img.spec_elem().spec_layout() == self.spec_layout()
                &&& img.spec_pixels() == self.spec_pixels()
            },
    {
        match self.bitmaps.element(index) {
            Some(elem) => Some(BitmapImage { elem, pixels: self.pixels }),
            None => None,
        }
    }

    /// Every image, in declaration order.
    pub fn iter(&self) -> (r: Vec<BitmapImage<'a>>)
        ensures
            r@.len() == self.spec_bitmaps().elements@.len(),
            forall|k: int|
                0 <= k < r@.len() ==> {
                    &&& ((#[trigger] r@[k]).spec_elem().spec_data(), r@[k].spec_elem().spec_raw()) == element_at(
                        self.spec_layout(),
                        self.spec_bitmaps(),
                        k,
                    )
                    &&& r@[k].spec_elem().spec_layout() == self.spec_layout()
                    &&& r@[k].spec_pixels() == self.spec_pixels()
                },
    {
        let mut out: Vec<BitmapImage<'a>> = Vec::new();
        let n = self.bitmaps.len();
        let mut k: usize = 0;
        while k < n
            invariant
                k <= n,
                n == self.spec_bitmaps().elements@.len(),
                out@.len() == k,
                forall|j: int|
                    0 <= j < k ==> {
                        &&& ((#[trigger] out@[j]).spec_elem().spec_data(), out@[j].spec_elem().spec_raw()) == element_at(
                            self.spec_layout(),
                            self.spec_bitmaps(),
                            j,
                        )
                        &&& out@[j].spec_elem().spec_layout() == self.spec_layout()
                        &&& out@[j].spec_pixels() == self.spec_pixels()
                    },
            decreases n - k,
        {
            match self.image(k) {
                Some(img) => out.push(img),
                None => {},
            }
            k = k + 1;
        }
        out
    }
}

impl<'a> BitmapImage<'a> {
    /// The image's `bitmaps[]` element.
    pub closed spec fn spec_elem(&self) -> TagStruct<'a> {
        self.elem
    }

    /// The tag's pixel blob.
    pub closed spec fn spec_pixels(&self) -> Seq<u8> {
        self.pixels@
    }

    /// The integer field `name` of the element.
    pub open spec fn spec_int(&self, name: Seq<char>) -> Option<i64> {
        read_int_spec(self.spec_elem().spec_layout(), self.spec_elem().spec_data(), self.spec_elem().spec_raw(), name)
    }

    /// The enum field `name` of the element, by option name.
    pub open spec fn spec_enum(&self, name: Seq<char>) -> Option<Seq<char>> {
        read_enum_name_spec(
            self.spec_elem().spec_layout(),
            self.spec_elem().spec_data(),
            self.spec_elem().spec_raw(),
            name,
        )
    }

    pub open spec fn spec_width(&self) -> u32 {
        nonneg_u32(or_default(self.spec_int("width"@), 0))
    }

    pub open spec fn spec_height(&self) -> u32 {
        nonneg_u32(or_default(self.spec_int("height"@), 0))
    }

    pub open spec fn spec_depth(&self) -> u32 {
        let v = or_default(self.spec_int("depth"@), 1);
        (if v < 1 {
            1
        } else {
            v
        }) as u32
    }

    /// `mipmap count` (which leaves out the base level) plus one,
    /// wrapping at `u32::MAX`.
    pub open spec fn spec_mipmap_levels(&self) -> u32 {
        let c = nonneg_u32(or_default(self.spec_int("mipmap count"@), 0));
        if c == u32::MAX {
            0
        } else {
            (c + 1) as u32
        }
    }

    pub open spec fn spec_is_cube(&self) -> bool {
        self.spec_enum("type"@) == Some("cube map"@)
    }

    pub open spec fn spec_is_array(&self) -> bool {
        self.spec_enum("type"@) == Some("array"@)
    }

    pub open spec fn spec_layer_count(&self) -> u32 {
        if self.spec_is_cube() {
            6
        } else if self.spec_is_array() {
            self.spec_depth()
        } else {
            1
        }
    }

    /// The modelled format of the image, if its name maps to one.
    pub open spec fn spec_format(&self) -> Option<BitmapFormat> {
        match self.spec_enum("format"@) {
            Some(n) => schema_format(n),
            None => None,
        }
    }

    /// The surface size of format `f` at this image's dimensions can be
    /// computed: at most 32 levels, room for block rounding, and a total
    /// that fits 64 bits.
    pub open spec fn sizes_fit(&self, f: BitmapFormat) -> bool {
        &&& self.spec_mipmap_levels() <= 32
        &&& f.spec_is_compressed() ==> self.spec_width() <= u32::MAX - 3 && self.spec_height() <= u32::MAX - 3
        &&& f.spec_surface_bytes(self.spec_width(), self.spec_height(), self.spec_mipmap_levels() as nat) <= u64::MAX
    }

    /// Byte offset of the image in the pixel blob.
    pub open spec fn spec_offset(&self) -> usize {
        let v = or_default(self.spec_int("pixels offset"@), 0);
        (if v < 0 {
            0
        } else {
            v
        }) as usize
    }

    /// Bytes of the image's full chain over all layers, in format `f`.
    pub open spec fn spec_expected(&self, f: BitmapFormat) -> usize {
        sat_mul(
            f.spec_surface_bytes(self.spec_width(), self.spec_height(), self.spec_mipmap_levels() as nat) as u64,
            self.spec_layer_count() as u64,
        ) as usize
    }

    /// Base-level width (negative stored values read as 0).
    pub fn width(&self) -> (r: u32)
        ensures
            r == self.spec_width(),
    {
        let v = match self.elem.read_int_any("width") {
            Some(v) => v,
            None => 0,
        };
        (if v < 0 {
            0
        } else {
            v
        }) as u32
    }

    /// Base-level height (negative stored values read as 0).
    pub fn height(&self) -> (r: u32)
        ensures
            r == self.spec_height(),
    {
        let v = match self.elem.read_int_any("height") {
            Some(v) => v,
            None => 0,
        };
        (if v < 0 {
            0
        } else {
            v
        }) as u32
    }

    /// Depth, or layer count of an array; at least 1.
    pub fn depth(&self) -> (r: u32)
        ensures
            r == self.spec_depth(),
    {
        let v = match self.elem.read_int_any("depth") {
            Some(v) => v,
            None => 1,
        };
        (if v < 1 {
            1
        } else {
            v
        }) as u32
    }

    /// Mipmap levels including the base level.
    pub fn mipmap_levels(&self) -> (r: u32)
        ensures
            r == self.spec_mipmap_levels(),
    {
        let v = match self.elem.read_int_any("mipmap count") {
            Some(v) => v,
            None => 0,
        };
        let count = (if v < 0 {
            0
        } else {
            v
        }) as u32;
        if count == u32::MAX {
            0
        } else {
            count + 1
        }
    }

    /// The schema's format option name.
    pub fn format_name(&self) -> (r: Option<String>)
        ensures
            opt_text(r) == self.spec_enum("format"@),
    {
        self.elem.read_enum_name("format")
    }

    /// The image's format: `NotABitmapTag` when it has no format name,
    /// `FormatNotSupported` with the name when the name is not modelled.
    pub fn format(&self) -> (r: Result<BitmapFormat, BitmapError>)
        ensures
            match self.spec_enum("format"@) {
                None => r matches Err(BitmapError::NotABitmapTag),
                Some(n) => match schema_format(n) {
                    Some(f) => r == Ok::<BitmapFormat, BitmapError>(f),
                    None => r matches Err(BitmapError::FormatNotSupported(s)) && s@ == n,
                },
            },
    {
        let name = match self.format_name() {
            Some(n) => n,
            None => {
                return Err(BitmapError::NotABitmapTag);
            },
        };
        match BitmapFormat::from_schema_name(name.as_str()) {
            Some(f) => Ok(f),
            None => Err(BitmapError::FormatNotSupported(name)),
        }
    }

    /// The schema's type option name (`2D texture`, `cube map`, ...).
    pub fn texture_type_name(&self) -> (r: Option<String>)
        ensures
            opt_text(r) == self.spec_enum("type"@),
    {
        self.elem.read_enum_name("type")
    }

    /// The gamma curve (a stored index; unknown values are `Unknown`).
    pub fn curve(&self) -> (r: BitmapCurve)
        ensures
            ({
                let i = (if or_default(self.spec_int("curve"@), 0) < 0 {
                    0
                } else {
                    or_default(self.spec_int("curve"@), 0)
                }) as u8;
                r == (if i == 1 {
                    BitmapCurve::XrgbGamma2
                } else if i == 2 {
                    BitmapCurve::Gamma2
                } else if i == 3 {
                    BitmapCurve::Linear
                } else if i == 4 {
                    BitmapCurve::OffsetLog
                } else if i == 5 {
                    BitmapCurve::Srgb
                } else {
                    BitmapCurve::Unknown
                })
            }),
    {
        let v = match self.elem.read_int_any("curve") {
            Some(v) => v,
            None => 0,
        };
        let raw = (if v < 0 {
            0
        } else {
            v
        }) as u8;
        BitmapCurve::from_index(raw)
    }

    /// Whether the image is a cube map.
    pub fn is_cube(&self) -> (r: bool)
        ensures
            r == self.spec_is_cube(),
    {
        match self.texture_type_name() {
            Some(t) => str_eq(t.as_str(), "cube map"),
            None => false,
        }
    }

    /// Whether the image is a texture array.
    pub fn is_array(&self) -> (r: bool)
        ensures
            r == self.spec_is_array(),
    {
        match self.texture_type_name() {
            Some(t) => str_eq(t.as_str(), "array"),
            None => false,
        }
    }

    /// Surfaces stacked beyond the mip chain: 6 faces for a cube map,
    /// `depth` layers for an array, else 1.
    pub fn layer_count(&self) -> (r: u32)
        ensures
            r == self.spec_layer_count(),
    {
        if self.is_cube() {
            6
        } else if self.is_array() {
            self.depth()
        } else {
            1
        }
    }

    /// The image's bytes in the pixel blob: from its `pixels offset`,
    /// as many bytes as its format, dimensions, mip levels and layers
    /// take (the stored `pixels size` is not trusted).
    pub fn pixel_bytes(&self) -> (r: Result<&'a [u8], BitmapError>)
        requires
            self.spec_format() matches Some(f) ==> self.sizes_fit(f),
        ensures
            match self.spec_format() {
                None => r is Err && (r matches Err(e) ==> (e is NotABitmapTag || e is FormatNotSupported)),
                Some(f) => {
                    let off = self.spec_offset() as int;
                    let n = self.spec_expected(f) as int;
                    &&& off + n <= self.spec_pixels().len() ==> (r matches Ok(b) && b@ == self.spec_pixels().subrange(
                        off,
                        off + n,
                    ))
                    &&& off + n > self.spec_pixels().len() ==> (r matches Err(BitmapError::PixelSliceOutOfBounds {
                        offset,
                        size,
                        available,
                    }) && offset == off && size == n && available == self.spec_pixels().len())
                },
            },
    {
        let v = match self.elem.read_int_any("pixels offset") {
            Some(v) => v,
            None => 0,
        };
        let offset = (if v < 0 {
            0
        } else {
            v
        }) as usize;
        let format = self.format()?;
        let layers = self.layer_count() as u64;
        let surface = format.surface_bytes(self.width(), self.height(), self.mipmap_levels());
        let expected = (match surface.checked_mul(layers) {
            Some(x) => x,
            None => u64::MAX,
        }) as usize;
        let available = self.pixels.len();
        if expected > available || offset > available - expected {
            return Err(
                BitmapError::PixelSliceOutOfBounds {
                    offset: offset as u64,
                    size: expected as u64,
                    available: available as u64,
                },
            );
        }
        Ok(vstd::slice::slice_subrange(self.pixels, offset, offset + expected))
    }

    /// The format a DDS file of this image is written in: `dxn_mono_alpha`
    /// is decompressed to `a8r8g8b8` first.
    pub open spec fn dds_format(f: BitmapFormat) -> BitmapFormat {
        if f == BitmapFormat::DxnMonoAlpha {
            BitmapFormat::A8r8g8b8
        } else {
            f
        }
    }

    /// The DDS header fields of this image in format `f` can be computed,
    /// and a `dxn_mono_alpha` image can be decompressed in memory.
    pub open spec fn dds_fits(&self, f: BitmapFormat) -> bool {
        let g = Self::dds_format(f);
        let w = self.spec_width();
        let h = self.spec_height();
        &&& f == BitmapFormat::DxnMonoAlpha ==> {
            &&& 4 * ((mip_extent(w, 0) as int) * (mip_extent(h, 0) as int)) <= usize::MAX
            &&& (self.spec_layer_count() as int) * f.spec_surface_bytes(w, h, self.spec_mipmap_levels() as nat)
                <= usize::MAX
        }
        &&& g.spec_is_compressed() ==> g.spec_level_bytes(w as nat, h as nat) <= u64::MAX
        &&& !g.spec_is_compressed() ==> {
            &&& w * (g.spec_bytes_per_pixel() * 8) + 7 <= u32::MAX
            &&& w * super::dds::spec_pixel_format(g).rgb_bit_count + 7 <= u32::MAX
        }
    }

    /// The pixel data a DDS file of this image carries, given the
    /// image's bytes `bytes` in format `f`.
    pub open spec fn dds_payload(&self, f: BitmapFormat, bytes: Seq<u8>) -> Seq<u8> {
        if f == BitmapFormat::DxnMonoAlpha {
            mono_alpha_layers(
                bytes,
                self.spec_width(),
                self.spec_height(),
                self.spec_mipmap_levels() as nat,
                self.spec_layer_count() as nat,
            )
        } else {
            bytes
        }
    }

    /// Append a DDS file of this image: the legacy header where the
    /// format has one, the DXT10 header for arrays and formats without;
    /// `dxn_mono_alpha` is decompressed to `a8r8g8b8` first. Refused:
    /// types other than 2D / cube / array, and cube maps that need DXT10.
    pub fn write_dds(&self, out: &mut Vec<u8>) -> (r: Result<(), BitmapError>)
        requires
            self.spec_format() matches Some(f) ==> self.sizes_fit(f) && self.dds_fits(f),
        ensures
            r is Err ==> final(out)@ == old(out)@,
            match self.spec_format() {
                None => r matches Err(e) && (e is NotABitmapTag || e is FormatNotSupported),
                Some(f) => {
                    let ty = self.spec_enum("type"@);
                    let bad_type = !self.spec_is_cube() && !self.spec_is_array() && ty is Some && ty != Some(
                        "2D texture"@,
                    );
                    let off = self.spec_offset() as int;
                    let n = self.spec_expected(f) as int;
                    let g = Self::dds_format(f);
                    let payload = self.dds_payload(f, self.spec_pixels().subrange(off, off + n));
                    if bad_type {
                        r matches Err(BitmapError::UnsupportedTextureType(t)) && Some(t@) == ty
                    } else if off + n > self.spec_pixels().len() {
                        r matches Err(BitmapError::PixelSliceOutOfBounds { .. })
                    } else if self.spec_is_array() || g == BitmapFormat::Signedr16g16b16a16 {
                        if self.spec_is_cube() {
                            r matches Err(BitmapError::UnsupportedTextureType(t)) && t@ == cube_dx10_text(g)
                        } else {
                            &&& r is Ok
                            &&& final(out)@ == old(out)@ + dx10_dds_bytes(
                                g,
                                self.spec_width(),
                                self.spec_height(),
                                self.spec_mipmap_levels(),
                                if self.spec_is_array() {
                                    self.spec_layer_count()
                                } else {
                                    1
                                },
                                payload,
                            )
                        }
                    } else {
                        &&& r is Ok
                        &&& final(out)@ == old(out)@ + legacy_dds_bytes(
                            g,
                            self.spec_width(),
                            self.spec_height(),
                            self.spec_mipmap_levels(),
                            self.spec_is_cube(),
                            payload,
                        )
                    }
                },
            },
    {
        let format = self.format()?;
        let ty = self.texture_type_name();
        let is_cube = self.is_cube();
        let is_array = self.is_array();
        if !is_cube && !is_array {
            match ty {
                Some(t) => {
                    if !str_eq(t.as_str(), "2D texture") {
                        return Err(BitmapError::UnsupportedTextureType(t));
                    }
                },
                None => {},
            }
        }
        let bytes = self.pixel_bytes()?;
        let width = self.width();
        let height = self.height();
        let levels = self.mipmap_levels();
        let layers = self.layer_count();
        if format == BitmapFormat::DxnMonoAlpha {
            proof {
                let sb = format.spec_surface_bytes(width, height, levels as nat);
                assert(bytes@.len() == self.spec_expected(format));
                assert((layers as int) * sb <= usize::MAX);
                assert((sb as u64) as int == sb);
                assert((sb as u64) * (layers as u64) == (layers as int) * sb) by (nonlinear_arith)
                    requires
                        (sb as u64) as int == sb,
                ;
                assert(sat_mul(sb as u64, layers as u64) == (layers as int) * sb);
            }
            let decoded = decode_dxn_mono_alpha(bytes, width, height, levels, layers);
            return self.write_dds_with_format(out, BitmapFormat::A8r8g8b8, decoded.as_slice(), is_cube, is_array);
        }
        self.write_dds_with_format(out, format, bytes, is_cube, is_array)
    }

    fn write_dds_with_format(&self, out: &mut Vec<u8>, format: BitmapFormat, bytes: &[u8], is_cube: bool, is_array: bool) -> (r:
        Result<(), BitmapError>)
        requires
            format != BitmapFormat::DxnMonoAlpha,
            format.spec_is_compressed() ==> self.spec_width() <= u32::MAX - 3 && self.spec_height() <= u32::MAX - 3
                && format.spec_level_bytes(self.spec_width() as nat, self.spec_height() as nat) <= u64::MAX,
            !format.spec_is_compressed() ==> self.spec_width() * (format.spec_bytes_per_pixel() * 8) + 7 <= u32::MAX
                && self.spec_width() * super::dds::spec_pixel_format(format).rgb_bit_count + 7 <= u32::MAX,
            is_cube == self.spec_is_cube(),
            is_array == self.spec_is_array(),
        ensures
            r is Err ==> final(out)@ == old(out)@,
            if is_array || format == BitmapFormat::Signedr16g16b16a16 {
                if is_cube {
                    r matches Err(BitmapError::UnsupportedTextureType(t)) && t@ == cube_dx10_text(format)
                } else {
                    &&& r is Ok
                    &&& final(out)@ == old(out)@ + dx10_dds_bytes(
                        format,
                        self.spec_width(),
                        self.spec_height(),
                        self.spec_mipmap_levels(),
                        if is_array {
                            self.spec_layer_count()
                        } else {
                            1
                        },
                        bytes@,
                    )
                }
            } else {
                &&& r is Ok
                &&& final(out)@ == old(out)@ + legacy_dds_bytes(
                    format,
                    self.spec_width(),
                    self.spec_height(),
                    self.spec_mipmap_levels(),
                    is_cube,
                    bytes@,
                )
            },
    {
        let needs_dx10 = is_array || format.requires_dxt10();
        if needs_dx10 {
            if is_cube {
                return Err(BitmapError::UnsupportedTextureType(cube_dx10_message(format)));
            }
            let layers = if is_array {
                self.layer_count()
            } else {
                1
            };
            write_dds_dx10(out, format, self.width(), self.height(), self.mipmap_levels(), layers, bytes);
        } else {
            write_dds(out, format, self.width(), self.height(), self.mipmap_levels(), is_cube, bytes);
        }
        Ok(())
    }
}

/// The refusal text for a cube map whose format needs the DXT10 header.
pub open spec fn cube_dx10_text(format: BitmapFormat) -> Seq<char> {
    "cube map of `"@ + format.spec_variant_name() + "` requires DXT10 cube + array support"@
}

/// Builds [`cube_dx10_text`].
fn cube_dx10_message(format: BitmapFormat) -> (r: String)
    ensures
        r@ == cube_dx10_text(format),
{
    let mut m = String::from_str("cube map of `");
    m.append(format.variant_name());
    m.append("` requires DXT10 cube + array support");
    m
}

} // verus!
