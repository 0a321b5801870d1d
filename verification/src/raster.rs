//! The in-memory RGBA raster that every filter stage transforms.

use vstd::prelude::*;
use vstd::arithmetic::div_mod::{
    lemma_fundamental_div_mod, lemma_div_multiples_vanish_fancy,
};
use vstd::arithmetic::mul::lemma_mul_nonnegative;

verus! {

/// A raster of width x height pixels, four 8-bit samples (R, G, B, A) each,
/// stored row by row.
pub struct Raster {
    pub width: usize,
    pub height: usize,
    pub data: Vec<u8>,
}

impl Raster {
    /// The sample count always equals width * height * 4.
    pub open spec fn wf(&self) -> bool {
        self.data@.len() == self.width * self.height * 4
    }

    pub open spec fn pixel_count(&self) -> int {
        self.width * self.height
    }

    /// Wrap the given samples, if their count matches the dimensions.
    pub fn new(width: usize, height: usize, data: Vec<u8>) -> (r: Option<Raster>)
        ensures
            match r {
                Some(img) => {
                    &&& img.wf()
                    &&& img.width == width
                    &&& img.height == height
                    &&& img.data@ == data@
                },
                None => data@.len() != width * height * 4,
            },
    {
        let len = data.len();
        assert(len == data@.len());
        proof {
            lemma_mul_nonnegative(width as int, height as int);
        }
        if let Some(wh) = width.checked_mul(height) {
            if let Some(n) = wh.checked_mul(4) {
                if len == n {
                    return Some(Raster { width, height, data });
                }
                assert(data@.len() != width * height * 4);
            } else {
                assert(width * height * 4 > usize::MAX >= len);
            }
        } else {
            assert(width * height * 4 >= width * height > usize::MAX >= len);
        }
        None
    }

    /// The number of pixels, as a machine integer.
    pub fn pixels(&self) -> (n: usize)
        requires
            self.wf(),
        ensures
            n == self.pixel_count(),
            n * 4 == self.data@.len(),
    {
        let n = self.data.len();
        proof {
            lemma_mul_nonnegative(self.width as int, self.height as int);
        }
        assert(self.width * self.height <= n);
        self.width * self.height
    }
}

/// Channel c of pixel (x, y) in a width-w sample sequence.
pub open spec fn chan(s: Seq<u8>, w: int, x: int, y: int, c: int) -> int {
    s[4 * (y * w + x) + c] as int
}

/// Sample i belongs to pixel i / 4; the channel is i % 4.
pub proof fn lemma_sample_split(p: int, c: int)
    requires
        0 <= p,
        0 <= c < 4,
    ensures
        (4 * p + c) / 4 == p,
        (4 * p + c) % 4 == c,
{
    lemma_div_multiples_vanish_fancy(p, c, 4);
    lemma_fundamental_div_mod(4 * p + c, 4);
}

/// Pixel (x, y) of a width-w raster sits at row-major position y * w + x.
pub proof fn lemma_pixel_coords(w: int, x: int, y: int)
    requires
        0 <= x < w,
        0 <= y,
    ensures
        (y * w + x) / w == y,
        (y * w + x) % w == x,
{
    lemma_div_multiples_vanish_fancy(y, x, w);
    assert(w * y == y * w) by (nonlinear_arith);
    lemma_fundamental_div_mod(y * w + x, w);
}

/// A pixel inside the raster sits before the pixel count.
pub proof fn lemma_pixel_in_range(w: int, h: int, x: int, y: int)
    requires
        0 <= x < w,
        0 <= y < h,
    ensures
        0 <= y * w + x < w * h,
{
    assert(y * w + x < w * h) by (nonlinear_arith)
        requires 0 <= x < w && 0 <= y < h;
    lemma_mul_nonnegative(y, w);
}

impl Raster {
    /// Read channel c of pixel (x, y).
    pub fn sample(&self, x: usize, y: usize, c: usize) -> (v: u8)
        requires
            self.wf(),
            x < self.width,
            y < self.height,
            c < 4,
        ensures
            v as int == chan(self.data@, self.width as int, x as int, y as int, c as int),
    {
        let w = self.width;
        let n = self.data.len();
        proof {
            lemma_pixel_in_range(w as int, self.height as int, x as int, y as int);
            assert(self.width * self.height <= n);
        }
        assert(y * w + x < self.width * self.height);
        let p = y * w + x;
        assert(4 * p + c < n);
        self.data[4 * p + c]
    }
}

} // verus!
