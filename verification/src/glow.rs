//! The glow stage: blend each interior pixel with an un-normalized weighted
//! sum over its 7x7 neighborhood. The outermost three-pixel frame keeps its
//! incoming samples.

use vstd::prelude::*;
use crate::math::clamp_int;
use crate::raster::{Raster, chan, lemma_sample_split, lemma_pixel_coords, lemma_pixel_in_range};
use vstd::arithmetic::mul::{lemma_mul_upper_bound, lemma_mul_is_commutative};
use vstd::arithmetic::div_mod::{lemma_fundamental_div_mod, lemma_mod_bound};

verus! {

/// A pixel the neighborhood sum is computed for: at least three pixels away
/// from every edge.
pub open spec fn interior3(w: int, h: int, x: int, y: int) -> bool {
    3 <= x < w - 3 && 3 <= y < h - 3
}

/// The weighted neighborhood sum over the first k of the 49 offsets, taken
/// row by row from (-3, -3). Offset (dx, dy) carries the un-normalized
/// weight 1000 / (dx^2 + dy^2 + 1) on the thousandths scale.
pub open spec fn glow_sum(s: Seq<u8>, w: int, x: int, y: int, c: int, k: nat) -> int
    decreases k,
{
    if k == 0 {
        0
    } else {
        let dx = (k - 1) as int % 7 - 3;
        let dy = (k - 1) as int / 7 - 3;
        glow_sum(s, w, x, y, c, (k - 1) as nat)
            + chan(s, w, x + dx, y + dy, c) * (1000int / (dx * dx + dy * dy + 1))
    }
}

pub proof fn lemma_glow_sum_bound(s: Seq<u8>, w: int, x: int, y: int, c: int, k: nat)
    requires
        k <= 49,
    ensures
        0 <= glow_sum(s, w, x, y, c, k) <= k * 255000,
    decreases k,
{
    if k > 0 {
        lemma_glow_sum_bound(s, w, x, y, c, (k - 1) as nat);
        let dx = (k - 1) as int % 7 - 3;
        let dy = (k - 1) as int / 7 - 3;
        assert(-3 <= dx <= 3 && -3 <= dy <= 3);
        assert(1 <= dx * dx + dy * dy + 1 <= 19) by (nonlinear_arith)
            requires -3 <= dx <= 3 && -3 <= dy <= 3;
        let wt = 1000int / (dx * dx + dy * dy + 1);
        assert(0 <= wt <= 1000);
        lemma_mul_upper_bound(chan(s, w, x + dx, y + dy, c), 255, wt, 1000);
        assert(chan(s, w, x + dx, y + dy, c) * wt >= 0) by (nonlinear_arith)
            requires chan(s, w, x + dx, y + dy, c) >= 0 && wt >= 0;
    }
}

/// One blended color channel: the incoming sample weighted 1000 - g against
/// the neighborhood sum weighted g, truncated and saturated at 255.
pub open spec fn glow_term(s: Seq<u8>, w: int, g: int, x: int, y: int, c: int) -> int {
    let v = (chan(s, w, x, y, c) * (1000 - g) + glow_sum(s, w, x, y, c, 49) * g / 1000) / 1000;
    if v > 255 { 255 } else { v }
}

pub open spec fn glow_at(s: Seq<u8>, w: int, h: int, g_raw: int, i: int) -> u8 {
    let p = i / 4;
    let x = p % w;
    let y = p / w;
    let c = i % 4;
    if c == 3 || !interior3(w, h, x, y) {
        s[i]
    } else {
        glow_term(s, w, clamp_int(g_raw, 0, 1000), x, y, c) as u8
    }
}

pub open spec fn glow_spec(s: Seq<u8>, w: int, h: int, g_raw: int) -> Seq<u8> {
    Seq::new(s.len(), |i: int| glow_at(s, w, h, g_raw, i))
}

/// True of the samples of pixels strictly before (x, y) in row-major order.
pub open spec fn glow_before(w: int, i: int, x: int, y: int) -> bool {
    let p = i / 4;
    p / w < y || (p / w == y && p % w < x)
}

/// Blend one channel of an interior pixel, for a glow weight already
/// clamped to 0..1000.
fn glow_sample(img: &Raster, g: u32, x: usize, y: usize, c: usize) -> (v: u8)
    requires
        img.wf(),
        interior3(img.width as int, img.height as int, x as int, y as int),
        c < 3,
        g <= 1000,
    ensures
        v as int == glow_term(img.data@, img.width as int, g as int, x as int, y as int, c as int),
{
    let ghost s = img.data@;
    let ghost w = img.width as int;
    let mut acc: u64 = 0;
    let mut k: usize = 0;
    while k < 49
        invariant
            k <= 49,
            img.wf(),
            interior3(img.width as int, img.height as int, x as int, y as int),
            c < 3,
            s == img.data@,
            w == img.width as int,
            acc as int == glow_sum(s, w, x as int, y as int, c as int, k as nat),
            acc <= k * 255000,
        decreases 49 - k,
    {
        let dx = k % 7;
        let dy = k / 7;
        let px = x - 3 + dx;
        let py = y - 3 + dy;
        let v = img.sample(px, py, c);
        let ex: u64 = if dx >= 3 { (dx - 3) as u64 } else { (3 - dx) as u64 };
        let ey: u64 = if dy >= 3 { (dy - 3) as u64 } else { (3 - dy) as u64 };
        proof {
            lemma_mul_upper_bound(ex as int, 3, ex as int, 3);
            lemma_mul_upper_bound(ey as int, 3, ey as int, 3);
        }
        let d2 = ex * ex + ey * ey;
        proof {
            let sdx = k as int % 7 - 3;
            let sdy = k as int / 7 - 3;
            assert(ex as int * ex as int == sdx * sdx && ey as int * ey as int == sdy * sdy)
                by (nonlinear_arith)
                requires
                    ex as int == (if sdx >= 0 { sdx } else { -sdx }),
                    ey as int == (if sdy >= 0 { sdy } else { -sdy });
            assert(px as int == x as int + sdx && py as int == y as int + sdy);
        }
        let wt = 1000 / (d2 + 1);
        assert(wt <= 1000);
        proof {
            lemma_mul_upper_bound(v as int, 255, wt as int, 1000);
            assert(v as int * wt as int >= 0) by (nonlinear_arith)
                requires v as int >= 0 && wt as int >= 0;
        }
        acc = acc + v as u64 * wt;
        k = k + 1;
    }
    proof {
        lemma_glow_sum_bound(s, w, x as int, y as int, c as int, 49);
        lemma_mul_upper_bound(acc as int, 49int * 255000, g as int, 1000);
    }
    let cc = img.sample(x, y, c) as u64;
    proof {
        lemma_mul_upper_bound(cc as int, 255, 1000 - g as int, 1000);
    }
    let v = (cc * (1000 - g as u64) + acc * g as u64 / 1000) / 1000;
    if v > 255 { 255u8 } else { v as u8 }
}

/// Blend the interior of the raster with its glow; the three-pixel border
/// and all alpha samples keep their incoming values.
pub fn add_glow(img: &Raster, intensity: u32) -> (out: Raster)
    requires
        img.wf(),
    ensures
        out.wf(),
        out.width == img.width,
        out.height == img.height,
        out.data@ == glow_spec(img.data@, img.width as int, img.height as int, intensity as int),
{
    let w = img.width;
    let h = img.height;
    let n = img.data.len();
    let g: u32 = if intensity > 1000 { 1000 } else { intensity };
    assert(g as int == clamp_int(intensity as int, 0, 1000));
    let mut data = img.data.clone();
    assert(data@ =~= img.data@);
    let ghost spec_out = glow_spec(img.data@, w as int, h as int, intensity as int);

    if w < 7 || h < 7 {
        assert forall|i: int| 0 <= i < n implies data@[i] == spec_out[i] by {
            lemma_fundamental_div_mod(i, 4);
        }
        assert(data@ =~= spec_out);
        return Raster { width: w, height: h, data };
    }

    let mut y: usize = 3;
    while y < h - 3
        invariant
            3 <= y <= h - 3,
            7 <= w,
            7 <= h,
            img.wf(),
            w == img.width,
            h == img.height,
            g as int == clamp_int(intensity as int, 0, 1000),
            g <= 1000,
            n == img.data@.len(),
            data@.len() == n,
            spec_out == glow_spec(img.data@, w as int, h as int, intensity as int),
            forall|i: int| 0 <= i < n ==> data@[i]
                == (if glow_before(w as int, i, 3, y as int) { spec_out[i] } else { img.data@[i] }),
        decreases h - y,
    {
        let mut x: usize = 3;
        while x < w - 3
            invariant
                3 <= y < h - 3,
                3 <= x <= w - 3,
                7 <= w,
                7 <= h,
                img.wf(),
                w == img.width,
                h == img.height,
                g as int == clamp_int(intensity as int, 0, 1000),
                g <= 1000,
                n == img.data@.len(),
                data@.len() == n,
                spec_out == glow_spec(img.data@, w as int, h as int, intensity as int),
                forall|i: int| 0 <= i < n ==> data@[i]
                    == (if glow_before(w as int, i, x as int, y as int) { spec_out[i] }
                        else { img.data@[i] }),
            decreases w - x,
        {
            proof {
                lemma_pixel_in_range(w as int, h as int, x as int, y as int);
                assert(w * h * 4 == n);
                assert(w * h <= n);
            }
            let p = y * w + x;
            let base = 4 * p;
            let v0 = glow_sample(img, g, x, y, 0);
            let v1 = glow_sample(img, g, x, y, 1);
            let v2 = glow_sample(img, g, x, y, 2);
            data.set(base, v0);
            data.set(base + 1, v1);
            data.set(base + 2, v2);
            proof {
                lemma_pixel_coords(w as int, x as int, y as int);
                lemma_sample_split(p as int, 0);
                lemma_sample_split(p as int, 1);
                lemma_sample_split(p as int, 2);
                lemma_sample_split(p as int, 3);
                assert(spec_out[base as int] == v0);
                assert(spec_out[base as int + 1] == v1);
                assert(spec_out[base as int + 2] == v2);
                assert forall|i: int| 0 <= i < n implies data@[i]
                    == (if glow_before(w as int, i, x as int + 1, y as int) { spec_out[i] }
                        else { img.data@[i] }) by {
                    lemma_fundamental_div_mod(i, 4);
                    lemma_fundamental_div_mod(i / 4, w as int);
                    lemma_mul_is_commutative(w as int, i / 4 / (w as int));
                    if i / 4 == p as int && i % 4 == 3 {
                        assert(spec_out[i] == img.data@[i]);
                    }
                }
            }
            x = x + 1;
        }
        proof {
            assert forall|i: int| 0 <= i < n implies
                (if glow_before(w as int, i, 3, y as int + 1) { spec_out[i] }
                    else { img.data@[i] })
                == (if glow_before(w as int, i, w as int - 3, y as int) { spec_out[i] }
                    else { img.data@[i] }) by {
                if glow_before(w as int, i, 3, y as int + 1)
                    != glow_before(w as int, i, w as int - 3, y as int) {
                    // the predicates differ only on border pixels, which the
                    // stage leaves unchanged
                    lemma_mod_bound(i / 4, w as int);
                    assert(spec_out[i] == img.data@[i]);
                }
            }
        }
        y = y + 1;
    }
    proof {
        assert forall|i: int| 0 <= i < n implies data@[i] == spec_out[i] by {
            if !glow_before(w as int, i, 3, h as int - 3) {
                // whatever is not yet written sits on the bottom border
                lemma_mod_bound(i / 4, w as int);
                assert(spec_out[i] == img.data@[i]);
            }
        }
        assert(data@ =~= spec_out);
    }
    Raster { width: w, height: h, data }
}

} // verus!
