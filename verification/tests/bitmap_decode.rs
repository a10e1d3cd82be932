use blam_tags::bitmap::decode::decode_to_rgba8;
use blam_tags::bitmap::{BitmapError, BitmapFormat};

fn rgba(r: u8, g: u8, b: u8, a: u8) -> [u8; 4] { [r, g, b, a] }

#[test]
fn a8_white_with_alpha() {
    let out = decode_to_rgba8(BitmapFormat::A8, 4, 1, &[0x00, 0x80, 0xFF, 0x40]).unwrap();
    assert_eq!(&out[0..4], &rgba(255, 255, 255, 0x00));
    assert_eq!(&out[4..8], &rgba(255, 255, 255, 0x80));
    assert_eq!(&out[8..12], &rgba(255, 255, 255, 0xFF));
    assert_eq!(&out[12..16], &rgba(255, 255, 255, 0x40));
}

#[test]
fn y8_replicates_to_rgb() {
    let out = decode_to_rgba8(BitmapFormat::Y8, 2, 1, &[0x00, 0x80]).unwrap();
    assert_eq!(&out[0..4], &rgba(0, 0, 0, 255));
    assert_eq!(&out[4..8], &rgba(0x80, 0x80, 0x80, 255));
}

#[test]
fn r8_red_only() {
    let out = decode_to_rgba8(BitmapFormat::R8, 1, 1, &[0xCC]).unwrap();
    assert_eq!(&out, &rgba(0xCC, 0, 0, 255));
}

#[test]
fn ay8_replicates_to_all_four() {
    let out = decode_to_rgba8(BitmapFormat::Ay8, 1, 1, &[0x40]).unwrap();
    assert_eq!(&out, &rgba(0x40, 0x40, 0x40, 0x40));
}

#[test]
fn a8y8_y_in_rgb_a_in_alpha() {
    // bytes [Y, A] in memory
    let out = decode_to_rgba8(BitmapFormat::A8y8, 1, 1, &[0x80, 0x40]).unwrap();
    assert_eq!(&out, &rgba(0x80, 0x80, 0x80, 0x40));
}

#[test]
fn a4r4g4b4_nibble_replication() {
    // u16 LE = 0xFEDC → AAAA=0xF RRRR=0xE GGGG=0xD BBBB=0xC
    let out = decode_to_rgba8(BitmapFormat::A4r4g4b4, 1, 1, &[0xDC, 0xFE]).unwrap();
    assert_eq!(&out, &rgba(0xEE, 0xDD, 0xCC, 0xFF));
}

#[test]
fn x8r8g8b8_alpha_forced_to_255() {
    // Memory [B, G, R, X]
    let out = decode_to_rgba8(BitmapFormat::X8r8g8b8, 1, 1, &[0x10, 0x20, 0x30, 0xAA]).unwrap();
    assert_eq!(&out, &rgba(0x30, 0x20, 0x10, 0xFF));
}

#[test]
fn a8r8g8b8_bgra_to_rgba() {
    // Memory [B, G, R, A]
    let out = decode_to_rgba8(BitmapFormat::A8r8g8b8, 1, 1, &[0x10, 0x20, 0x30, 0x40]).unwrap();
    assert_eq!(&out, &rgba(0x30, 0x20, 0x10, 0x40));
}

#[test]
fn v8u8_signed_bias_to_unsigned() {
    // Memory [U, V] = [-1, 0] → expected (V+128, U+128, 128, 255) = (128, 127, 128, 255)
    let out = decode_to_rgba8(BitmapFormat::V8u8, 1, 1, &[0xFF, 0x00]).unwrap();
    assert_eq!(&out, &rgba(128, 127, 128, 255));

    // Memory [U=+127, V=-128] → (0, 255, 128, 255)
    let out = decode_to_rgba8(BitmapFormat::V8u8, 1, 1, &[0x7F, 0x80]).unwrap();
    assert_eq!(&out, &rgba(0, 255, 128, 255));
}

#[test]
fn q8w8v8u8_signed_bias_per_channel() {
    // Memory [U, V, W, Q] = [-128, 0, +127, +1] → (0, 128, 255, 129)
    let out = decode_to_rgba8(BitmapFormat::Q8w8v8u8, 1, 1, &[0x80, 0x00, 0x7F, 0x01]).unwrap();
    assert_eq!(&out, &rgba(0, 128, 255, 129));
}

#[test]
fn a16b16g16r16_high_byte_only() {
    // R=0xFF00, G=0x8000, B=0x0100, A=0xFFFF (LE bytes)
    let bytes = [0x00, 0xFF, 0x00, 0x80, 0x00, 0x01, 0xFF, 0xFF];
    let out = decode_to_rgba8(BitmapFormat::A16b16g16r16, 1, 1, &bytes).unwrap();
    assert_eq!(&out, &rgba(0xFF, 0x80, 0x01, 0xFF));
}

#[test]
fn signedr16g16b16a16_bias_by_32768() {
    // R=-32768 → 0, G=0 → 128, B=+32767 → 255, A=-1 → 127
    let r = (-32768i16).to_le_bytes();
    let g = 0i16.to_le_bytes();
    let b = 32767i16.to_le_bytes();
    let a = (-1i16).to_le_bytes();
    let bytes = [r[0], r[1], g[0], g[1], b[0], b[1], a[0], a[1]];
    let out = decode_to_rgba8(BitmapFormat::Signedr16g16b16a16, 1, 1, &bytes).unwrap();
    assert_eq!(&out, &rgba(0, 128, 255, 127));
}

#[test]
fn abgrfp16_clamp_and_scale() {
    // Half-float encodings:
    //   1.0 = 0x3C00, 0.0 = 0x0000, 0.5 = 0x3800, 2.0 = 0x4000 (clamps to 1.0)
    let bytes = [
        0x00, 0x3C, // R = 1.0
        0x00, 0x38, // G = 0.5
        0x00, 0x00, // B = 0.0
        0x00, 0x40, // A = 2.0 → clamps to 1.0
    ];
    let out = decode_to_rgba8(BitmapFormat::Abgrfp16, 1, 1, &bytes).unwrap();
    assert_eq!(&out, &rgba(255, 128, 0, 255));
}

#[test]
fn abgrfp32_clamp_and_scale() {
    let mut bytes = Vec::new();
    bytes.extend_from_slice(&1.0_f32.to_le_bytes());   // R
    bytes.extend_from_slice(&0.5_f32.to_le_bytes());   // G
    bytes.extend_from_slice(&(-0.5_f32).to_le_bytes()); // B → clamps to 0
    bytes.extend_from_slice(&3.0_f32.to_le_bytes());   // A → clamps to 1
    let out = decode_to_rgba8(BitmapFormat::Abgrfp32, 1, 1, &bytes).unwrap();
    assert_eq!(&out, &rgba(255, 128, 0, 255));
}

#[test]
fn input_too_short_returns_oob() {
    let err = decode_to_rgba8(BitmapFormat::A8r8g8b8, 2, 2, &[0u8; 12]);
    assert!(matches!(err, Err(BitmapError::PixelSliceOutOfBounds { .. })));
}

// --- BC sanity tests --------------------------------------------------
//
// We're testing our walker / dispatch / channel-mapping rather
// than bcdec_rs's correctness — the upstream library has its
// own test suite. So each test crafts a block whose decoded
// output is trivially predictable (uniform color) and checks
// we splat it across all 16 pixels with the right channel order.

/// BC1 block with both endpoints = solid red (R5G6B5 = 0xF800).
/// Expect every pixel to be opaque red.
#[test]
fn bc1_solid_red_block() {
    let mut block = [0u8; 8];
    block[0..2].copy_from_slice(&0xF800u16.to_le_bytes()); // color0
    block[2..4].copy_from_slice(&0xF800u16.to_le_bytes()); // color1
    // index bits all 0 → palette[0] = color0 = red
    let out = decode_to_rgba8(BitmapFormat::Dxt1, 4, 4, &block).unwrap();
    for i in 0..16 {
        assert_eq!(&out[i * 4..i * 4 + 4], &[0xFF, 0x00, 0x00, 0xFF]);
    }
}

/// BC4 block (DXT5A) with both endpoints = 0x80. Expect uniform
/// grey replicated to RGB with full alpha.
#[test]
fn bc4_dxt5a_replicates_to_grey() {
    let mut block = [0u8; 8];
    block[0] = 0x80;
    block[1] = 0x80;
    let out = decode_to_rgba8(BitmapFormat::Dxt5a, 4, 4, &block).unwrap();
    for i in 0..16 {
        assert_eq!(&out[i * 4..i * 4 + 4], &[0x80, 0x80, 0x80, 0xFF]);
    }
}

/// BC5 block (DXN) with red sub-block = 0x40 and green sub-block
/// = 0xC0. Expect (R=0x40, G=0xC0, B=128, A=255) at every pixel.
#[test]
fn bc5_dxn_two_channel_with_neutral_blue() {
    let mut block = [0u8; 16];
    // Red sub-block: both endpoints = 0x40
    block[0] = 0x40;
    block[1] = 0x40;
    // Green sub-block: both endpoints = 0xC0
    block[8] = 0xC0;
    block[9] = 0xC0;
    let out = decode_to_rgba8(BitmapFormat::Dxn, 4, 4, &block).unwrap();
    for i in 0..16 {
        assert_eq!(&out[i * 4..i * 4 + 4], &[0x40, 0xC0, 0x80, 0xFF]);
    }
}

/// `dxn_mono_alpha` block with luminance=0xA0, alpha=0x60.
/// Expect (0xA0, 0xA0, 0xA0, 0x60).
#[test]
fn dxn_mono_alpha_lum_in_rgb_alpha_in_alpha() {
    let mut block = [0u8; 16];
    // Red sub-block (luminance) endpoints
    block[0] = 0xA0;
    block[1] = 0xA0;
    // Green sub-block (alpha) endpoints
    block[8] = 0x60;
    block[9] = 0x60;
    let out = decode_to_rgba8(BitmapFormat::DxnMonoAlpha, 4, 4, &block).unwrap();
    for i in 0..16 {
        assert_eq!(&out[i * 4..i * 4 + 4], &[0xA0, 0xA0, 0xA0, 0x60]);
    }
}

/// Sub-4-pixel mip (1×1) for a BC format: input is still one
/// 4×4 block, output should hold one valid pixel.
#[test]
fn bc1_1x1_mip_single_pixel_decodes() {
    let mut block = [0u8; 8];
    block[0..2].copy_from_slice(&0x07E0u16.to_le_bytes()); // R5G6B5 green
    block[2..4].copy_from_slice(&0x07E0u16.to_le_bytes());
    let out = decode_to_rgba8(BitmapFormat::Dxt1, 1, 1, &block).unwrap();
    assert_eq!(out.len(), 4);
    assert_eq!(&out, &[0x00, 0xFF, 0x00, 0xFF]);
}

