//! Bitmap formats, pixel decoders, DDS headers and Xbox 360 detiling.
use vstd::prelude::*;

pub mod dds;
pub mod decode;
pub mod format;
pub mod image;
pub mod xbox360;

pub use format::{BitmapCurve, BitmapFormat};
pub use image::{Bitmap, BitmapImage};

verus! {

/// Errors returned by the bitmap walkers, decoders and DDS writer.
#[derive(Debug)]
pub enum BitmapError {
    /// The root struct lacks `bitmaps` or `processed pixel data`.
    NotABitmapTag,
    /// The `format` option name isn't a modelled [`BitmapFormat`].
    FormatNotSupported(String),
    /// A pixel slice runs past the end of the available bytes.
    PixelSliceOutOfBounds { offset: u64, size: u64, available: u64 },
    /// The bitmap type isn't 2D / cube / array.
    UnsupportedTextureType(String),
    /// TIFF emission for this bitmap type is not available.
    TiffLayoutDeferred(String),
    /// TIFF encoder failure message.
    Tiff(String),
}

} // verus!
