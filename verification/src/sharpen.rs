//! The sharpen stage: a 3x3 cross kernel over the interior pixels. The
//! outermost one-pixel frame keeps its incoming samples.

use vstd::prelude::*;
use crate::raster::{Raster, chan, lemma_sample_split, lemma_pixel_coords, lemma_pixel_in_range};
use vstd::arithmetic::mul::{lemma_mul_upper_bound, lemma_mul_is_commutative};
use vstd::arithmetic::div_mod::{lemma_fundamental_div_mod, lemma_mod_bound};

verus! {

/// A pixel the kernel is applied to: at least one pixel away from every
/// edge.
pub open spec fn interior1(w: int, h: int, x: int, y: int) -> bool {
    1 <= x < w - 1 && 1 <= y < h - 1
}

/// The convolved value of one color channel: the center weighted
/// 1000 + 4 * sh against its four orthogonal neighbors weighted -sh, on the
/// thousandths scale, truncated and clamped to 0..255.
pub open spec fn sharpen_term(s: Seq<u8>, w: int, sh: int, x: int, y: int, c: int) -> int {
    let center = chan(s, w, x, y, c) * (1000 + 4 * sh);
    let sides = sh * (chan(s, w, x, y - 1, c) + chan(s, w, x, y + 1, c)
        + chan(s, w, x - 1, y, c) + chan(s, w, x + 1, y, c));
    if sides >= center {
        0
    } else {
        let v = (center - sides) / 1000;
        if v > 255 { 255 } else { v }
    }
}

pub open spec fn sharpen_at(s: Seq<u8>, w: int, h: int, sh: int, i: int) -> u8 {
    let p = i / 4;
    let x = p % w;
    let y = p / w;
    let c = i % 4;
    if c == 3 || !interior1(w, h, x, y) {
        s[i]
    } else {
        sharpen_term(s, w, sh, x, y, c) as u8
    }
}

pub open spec fn sharpen_spec(s: Seq<u8>, w: int, h: int, sh: int) -> Seq<u8> {
    Seq::new(s.len(), |i: int| sharpen_at(s, w, h, sh, i))
}

/// True of the samples of pixels strictly before (x, y) in row-major order.
pub open spec fn before_pixel(w: int, i: int, x: int, y: int) -> bool {
    let p = i / 4;
    p / w < y || (p / w == y && p % w < x)
}

/// Convolve one channel of an interior pixel.
fn sharpen_sample(img: &Raster, sharpness: u32, x: usize, y: usize, c: usize) -> (v: u8)
    requires
        img.wf(),
        interior1(img.width as int, img.height as int, x as int, y as int),
        c < 3,
    ensures
        v as int == sharpen_term(
            img.data@, img.width as int, sharpness as int, x as int, y as int, c as int),
{
    let cc = img.sample(x, y, c) as u64;
    let up = img.sample(x, y - 1, c) as u64;
    let down = img.sample(x, y + 1, c) as u64;
    let left = img.sample(x - 1, y, c) as u64;
    let right = img.sample(x + 1, y, c) as u64;
    let sh = sharpness as u64;
    proof {
        lemma_mul_upper_bound(cc as int, 255, 1000 + 4 * sh as int, 0x4_0000_03e8);
        lemma_mul_upper_bound(sh as int, 0xffff_ffff, (up + down + left + right) as int, 1020);
    }
    let center = cc * (1000 + 4 * sh);
    let sides = sh * (up + down + left + right);
    if sides >= center {
        0
    } else {
        let v = (center - sides) / 1000;
        if v > 255 { 255 } else { v as u8 }
    }
}

/// Sharpen the interior of the raster; the one-pixel border and all alpha
/// samples keep their incoming values.
pub fn sharpen(img: &Raster, sharpness: u32) -> (out: Raster)
    requires
        img.wf(),
    ensures
        out.wf(),
        out.width == img.width,
        out.height == img.height,
        out.data@ == sharpen_spec(
            img.data@, img.width as int, img.height as int, sharpness as int),
{
    let w = img.width;
    let h = img.height;
    let n = img.data.len();
    let mut data = img.data.clone();
    assert(data@ =~= img.data@);
    let ghost spec_out = sharpen_spec(img.data@, w as int, h as int, sharpness as int);

    if w < 3 || h < 3 {
        assert forall|i: int| 0 <= i < n implies data@[i] == spec_out[i] by {
            lemma_fundamental_div_mod(i, 4);
        }
        assert(data@ =~= spec_out);
        return Raster { width: w, height: h, data };
    }

    let mut y: usize = 1;
    while y < h - 1
        invariant
            1 <= y <= h - 1,
            3 <= w,
            3 <= h,
            img.wf(),
            w == img.width,
            h == img.height,
            n == img.data@.len(),
            data@.len() == n,
            spec_out == sharpen_spec(img.data@, w as int, h as int, sharpness as int),
            forall|i: int| 0 <= i < n ==> data@[i]
                == (if before_pixel(w as int, i, 1, y as int) { spec_out[i] } else { img.data@[i] }),
        decreases h - y,
    {
        let mut x: usize = 1;
        while x < w - 1
            invariant
                1 <= y < h - 1,
                1 <= x <= w - 1,
                3 <= w,
                3 <= h,
                img.wf(),
                w == img.width,
                h == img.height,
                n == img.data@.len(),
                data@.len() == n,
                spec_out == sharpen_spec(img.data@, w as int, h as int, sharpness as int),
                forall|i: int| 0 <= i < n ==> data@[i]
                    == (if before_pixel(w as int, i, x as int, y as int) { spec_out[i] }
                        else { img.data@[i] }),
            decreases w - x,
        {
            proof {
                lemma_pixel_in_range(w as int, h as int, x as int, y as int);
                assert(w * h * 4 == n);
                assert(w * h <= n);
            }
            let p = y * w + x;
            let base = 4 * p;
            let v0 = sharpen_sample(img, sharpness, x, y, 0);
            let v1 = sharpen_sample(img, sharpness, x, y, 1);
            let v2 = sharpen_sample(img, sharpness, x, y, 2);
            data.set(base, v0);
            data.set(base + 1, v1);
            data.set(base + 2, v2);
            proof {
                lemma_pixel_coords(w as int, x as int, y as int);
                lemma_sample_split(p as int, 0);
                lemma_sample_split(p as int, 1);
                lemma_sample_split(p as int, 2);
                lemma_sample_split(p as int, 3);
                assert(spec_out[base as int] == v0);
                assert(spec_out[base as int + 1] == v1);
                assert(spec_out[base as int + 2] == v2);
                assert forall|i: int| 0 <= i < n implies data@[i]
                    == (if before_pixel(w as int, i, x as int + 1, y as int) { spec_out[i] }
                        else { img.data@[i] }) by {
                    lemma_fundamental_div_mod(i, 4);
                    lemma_fundamental_div_mod(i / 4, w as int);
                    lemma_mul_is_commutative(w as int, i / 4 / (w as int));
                    if i / 4 == p as int && i % 4 == 3 {
                        assert(spec_out[i] == img.data@[i]);
                    }
                }
            }
            x = x + 1;
        }
        proof {
            assert forall|i: int| 0 <= i < n implies
                (if before_pixel(w as int, i, 1, y as int + 1) { spec_out[i] }
                    else { img.data@[i] })
                == (if before_pixel(w as int, i, w as int - 1, y as int) { spec_out[i] }
                    else { img.data@[i] }) by {
                let p = i / 4;
                if before_pixel(w as int, i, 1, y as int + 1)
                    != before_pixel(w as int, i, w as int - 1, y as int) {
                    // the predicates differ only on border pixels, which the
                    // stage leaves unchanged
                    lemma_mod_bound(p, w as int);
                    assert(spec_out[i] == img.data@[i]);
                }
            }
        }
        y = y + 1;
    }
    proof {
        assert forall|i: int| 0 <= i < n implies data@[i] == spec_out[i] by {
            if !before_pixel(w as int, i, 1, h as int - 1) {
                // whatever is not yet written sits on the bottom border
                lemma_mod_bound(i / 4, w as int);
                assert(spec_out[i] == img.data@[i]);
            }
        }
        assert(data@ =~= spec_out);
    }
    Raster { width: w, height: h, data }
}

} // verus!
