//! The image buffer model: a row-major grid of 8-bit RGB pixels, and the
//! fixed reference colors used for the phosphor stripes.

use vstd::prelude::*;

verus! {

/// One 8-bit RGB color triple.
#[derive(Clone, Copy, PartialEq, Eq, Structural, Debug)]
pub struct Rgb {
    pub r: u8,
    pub g: u8,
    pub b: u8,
}

impl Rgb {
    /// The channel at index `c`: 0 is red, 1 is green, 2 is blue.
    pub open spec fn spec_channel(self, c: int) -> u8 {
        if c == 0 {
            self.r
        } else if c == 1 {
            self.g
        } else {
            self.b
        }
    }
}

/// A row-major 8-bit RGB image: three bytes per pixel, rows stored
/// consecutively from top to bottom.
pub struct Image {
    pub width: usize,
    pub height: usize,
    pub data: Vec<u8>,
}

impl Image {
    /// The buffer holds exactly three bytes for each of the `width * height` pixels.
    pub open spec fn wf(self) -> bool {
        self.data.len() == self.width * self.height * 3
    }

    /// Channel `c` of the pixel at column `x`, row `y`.
    pub open spec fn chan(self, x: int, y: int, c: int) -> u8 {
        self.data@[(y * self.width + x) * 3 + c]
    }
}

/// In row-major order, the bytes of the pixel at `(xx, yy)` end before the
/// bytes of the pixel at `(x, y)` begin.
pub(crate) proof fn lemma_row_major_lt(xx: int, yy: int, x: int, y: int, w: int)
    requires
        0 <= xx < w,
        0 <= yy,
        0 <= x,
        yy < y || (yy == y && xx < x),
    ensures
        0 <= (yy * w + xx) * 3,
        (yy * w + xx) * 3 + 3 <= (y * w + x) * 3,
{
    assert(0 <= (yy * w + xx) * 3 && (yy * w + xx) * 3 + 3 <= (y * w + x) * 3)
        by (nonlinear_arith)
        requires
            0 <= xx < w,
            0 <= yy,
            0 <= x,
            yy < y || (yy == y && xx < x),
    ;
}

/// A flat buffer index decomposes into the coordinates of the pixel and
/// channel it addresses: `i` is byte `i % 3` of the pixel in column
/// `(i / 3) % w`, row `(i / 3) / w`.
pub(crate) proof fn lemma_flat_index(i: int, w: int, h: int)
    requires
        w >= 1,
        h >= 1,
        0 <= i < w * h * 3,
    ensures
        0 <= (i / 3) % w < w,
        0 <= (i / 3) / w < h,
        0 <= i % 3 < 3,
        (((i / 3) / w) * w + (i / 3) % w) * 3 + (i % 3) == i,
{
    vstd::arithmetic::div_mod::lemma_fundamental_div_mod(i, 3);
    vstd::arithmetic::div_mod::lemma_fundamental_div_mod(i / 3, w);
    assert(0 <= (i / 3) % w < w && 0 <= i % 3 < 3 && 0 <= (i / 3) / w < h
        && (((i / 3) / w) * w + (i / 3) % w) * 3 + (i % 3) == i) by (nonlinear_arith)
        requires
            w >= 1,
            h >= 1,
            0 <= i < w * h * 3,
            i == 3 * (i / 3) + i % 3,
            0 <= i % 3 < 3,
            i / 3 == w * ((i / 3) / w) + (i / 3) % w,
            0 <= (i / 3) % w < w,
    ;
}

/// The bytes of any pixel of a `w` by `h` image lie inside the buffer.
pub(crate) proof fn lemma_pixel_index(x: int, y: int, w: int, h: int)
    requires
        0 <= x < w,
        0 <= y < h,
    ensures
        0 <= (y * w + x) * 3,
        (y * w + x) * 3 + 3 <= w * h * 3,
{
    assert(0 <= (y * w + x) * 3 && (y * w + x) * 3 + 3 <= w * h * 3) by (nonlinear_arith)
        requires
            0 <= x < w,
            0 <= y < h,
    ;
}

} // verus!
