use vstd::prelude::*;

verus! {

/// Largest channel value of the extended-precision (16-bit) single-channel
/// images; masks and height fields use the full range for blur precision.
pub const CHANNEL_MAX: u16 = 65535;

/// Cap on `channels * width * height` of every buffer, so that flat indices
/// and buffer lengths fit a 32-bit `usize`.
pub const MAX_BUFFER_LEN: usize = 0x6000_0000;

/// An 8-bit RGB color value.
#[derive(Clone, Copy, Debug, PartialEq, Eq, Structural)]
pub struct Rgb8 {
    pub r: u8,
    pub g: u8,
    pub b: u8,
}

/// Row-major 8-bit RGB image: three channel bytes per pixel, so pixel
/// (x, y) occupies `data[3*(y*width + x)] ..= data[3*(y*width + x) + 2]`.
pub struct Rgb8Image {
    pub width: u32,
    pub height: u32,
    pub data: Vec<u8>,
}

/// Row-major 8-bit single-channel image (grayscale surface luminance).
pub struct Gray8Image {
    pub width: u32,
    pub height: u32,
    pub data: Vec<u8>,
}

/// Row-major 16-bit single-channel image (masks and height fields).
pub struct Gray16Image {
    pub width: u32,
    pub height: u32,
    pub data: Vec<u16>,
}

/// Row-major 8-bit RGBA image: four channel bytes per pixel.
pub struct RgbaImage {
    pub width: u32,
    pub height: u32,
    pub data: Vec<u8>,
}

impl Rgb8Image {
    /// Structural invariant: nonempty, and the buffer holds exactly three
    /// bytes per pixel, small enough that every flat index fits `usize`.
    pub open spec fn wf(self) -> bool {
        &&& 1 <= self.width
        &&& 1 <= self.height
        &&& self.data@.len() == 3 * self.width * self.height
        &&& 3 * self.width * self.height <= MAX_BUFFER_LEN
    }
}

impl Gray8Image {
    /// Structural invariant: nonempty, one byte per pixel.
    pub open spec fn wf(self) -> bool {
        &&& 1 <= self.width
        &&& 1 <= self.height
        &&& self.data@.len() == self.width * self.height
        &&& self.width * self.height <= MAX_BUFFER_LEN
    }
}

impl Gray16Image {
    /// Structural invariant: nonempty, one 16-bit value per pixel.
    pub open spec fn wf(self) -> bool {
        &&& 1 <= self.width
        &&& 1 <= self.height
        &&& self.data@.len() == self.width * self.height
        &&& self.width * self.height <= MAX_BUFFER_LEN
    }
}

impl RgbaImage {
    /// Structural invariant: nonempty, four bytes per pixel.
    pub open spec fn wf(self) -> bool {
        &&& 1 <= self.width
        &&& 1 <= self.height
        &&& self.data@.len() == 4 * self.width * self.height
        &&& 4 * self.width * self.height <= MAX_BUFFER_LEN
    }
}

/// A flat pixel index decomposes into coordinates below the image bounds.
pub proof fn lemma_flat_index(x: int, y: int, w: int, h: int)
    requires
        0 <= x < w,
        0 <= y < h,
    ensures
        0 <= y * w + x < w * h,
{
    assert(0 <= y * w + x < w * h) by (nonlinear_arith)
        requires
            0 <= x < w,
            0 <= y < h,
    ;
}

/// The pixel count of a well-formed three-channel buffer fits alongside
/// its three-fold flat indices.
pub proof fn lemma_pixel_count(w: int, h: int)
    requires
        1 <= w,
        1 <= h,
        3 * w * h <= MAX_BUFFER_LEN,
    ensures
        w * h <= 0x2000_0000,
        3 * (w * h) == 3 * w * h,
        1 <= w * h,
{
    assert(w * h <= 0x2000_0000 && 3 * (w * h) == 3 * w * h && 1 <= w * h)
        by (nonlinear_arith)
        requires
            1 <= w,
            1 <= h,
            3 * w * h <= 0x6000_0000,
    ;
}

/// Coordinates recovered from a flat index by division and remainder lie
/// below the image bounds.
pub proof fn lemma_index_coords(i: int, w: int, h: int)
    requires
        0 <= i < w * h,
        1 <= w,
        1 <= h,
    ensures
        0 <= i % w < w,
        0 <= i / w < h,
        (i / w) * w + (i % w) == i,
{
    assert(0 <= i % w < w && 0 <= i / w < h && (i / w) * w + (i % w) == i)
        by (nonlinear_arith)
        requires
            0 <= i < w * h,
            1 <= w,
            1 <= h,
    ;
}

} // verus!
