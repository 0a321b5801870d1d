//! The tint stage: pull each pixel toward a target hue, sparing gray pixels
//! and, optionally, dark ones.

use vstd::prelude::*;
use crate::math::{abs_int, clamp_255, fix_pow, fix_pow_exec};
use crate::color::{
    rgb_to_hsl_spec, hsl_to_rgb_spec, luma_milli, min2, rgb_to_hsl, hsl_to_rgb, get_grayscale,
    lemma_ratio_le,
};
use crate::raster::{Raster, lemma_sample_split};
use vstd::arithmetic::mul::lemma_mul_upper_bound;
use vstd::arithmetic::div_mod::lemma_div_is_ordered;

verus! {

/// One tint pass: the target hue (thousandths of a degree), how strongly to
/// pull toward it, how much to spare near-gray pixels, and how much to spare
/// dark pixels (all in thousandths; strength, preserve_gray and a positive
/// luminance_mask are clamped to 1000 on use).
#[derive(Clone, Copy, Debug, PartialEq, Eq, Structural)]
pub struct TintAdjustment {
    pub hue: u32,
    pub strength: u32,
    pub preserve_gray: u32,
    pub luminance_mask: i32,
}

impl Default for TintAdjustment {
    /// A moderate cyan tint that spares gray pixels and ignores luminance.
    fn default() -> (d: Self)
        ensures
            d == (TintAdjustment { hue: 180000, strength: 300, preserve_gray: 500, luminance_mask: 0 }),
    {
        TintAdjustment { hue: 180000, strength: 300, preserve_gray: 500, luminance_mask: 0 }
    }
}

/// A sample scaled from 0..255 to thousandths of full scale.
pub open spec fn norm_milli(c: int) -> int {
    c * 1000 / 255
}

/// The effective pull toward the target hue for one pixel, in thousandths:
/// the strength, cut down by the grayness of the pixel (weighted by
/// preserve_gray) and by a lightness power curve when luminance_mask is
/// positive.
pub open spec fn tint_strength_spec(r: int, g: int, b: int, t: TintAdjustment) -> int {
    let nr = norm_milli(r);
    let ng = norm_milli(g);
    let nb = norm_milli(b);
    let gray = luma_milli(nr, ng, nb);
    let cd = abs_int(nr - gray) + abs_int(ng - gray) + abs_int(nb - gray);
    let gf = if t.preserve_gray > 0 {
        (if 1000 - 2 * cd > 0 { 1000 - 2 * cd } else { 0 }) * min2(t.preserve_gray as int, 1000)
            / 1000
    } else {
        0
    };
    let lf = if t.luminance_mask > 0 {
        let l = rgb_to_hsl_spec(r, g, b).2;
        fix_pow(l * 65536 / 1000, 1024 + min2(t.luminance_mask as int, 1000) * 1024 / 1000) * 1000
            / 65536
    } else {
        1000
    };
    min2(t.strength as int, 1000) * (1000 - gf) / 1000 * lf / 1000
}

/// Move a channel level (thousandths) toward the target level by ts
/// thousandths of the gap.
pub open spec fn tint_channel_milli(nc: int, tc: int, ts: int) -> int {
    if tc >= nc {
        nc + (tc - nc) * ts / 1000
    } else {
        nc - (nc - tc) * ts / 1000
    }
}

/// A channel level in thousandths, rounded back to an 8-bit sample.
pub open spec fn milli_to_byte(v: int) -> int {
    clamp_255((v * 255 + 500) / 1000)
}

/// One tinted pixel: blend each channel toward the hue target built from the
/// pixel's own saturation (capped at full) and lightness. A pixel whose
/// effective strength is zero is returned unchanged.
pub open spec fn tint_pixel_spec(r: int, g: int, b: int, t: TintAdjustment) -> (int, int, int) {
    let ts = tint_strength_spec(r, g, b, t);
    if ts > 0 {
        let hsl = rgb_to_hsl_spec(r, g, b);
        let target = hsl_to_rgb_spec(t.hue as int, min2(hsl.1, 1000), hsl.2);
        (
            milli_to_byte(tint_channel_milli(norm_milli(r), target.0, ts)),
            milli_to_byte(tint_channel_milli(norm_milli(g), target.1, ts)),
            milli_to_byte(tint_channel_milli(norm_milli(b), target.2, ts)),
        )
    } else {
        (r, g, b)
    }
}

pub open spec fn tint_at(s: Seq<u8>, t: TintAdjustment, i: int) -> u8 {
    let p = i / 4;
    let out = tint_pixel_spec(s[4 * p] as int, s[4 * p + 1] as int, s[4 * p + 2] as int, t);
    if i % 4 == 3 {
        s[i]
    } else if i % 4 == 0 {
        out.0 as u8
    } else if i % 4 == 1 {
        out.1 as u8
    } else {
        out.2 as u8
    }
}

pub open spec fn tint_spec(s: Seq<u8>, t: TintAdjustment) -> Seq<u8> {
    Seq::new(s.len(), |i: int| tint_at(s, t, i))
}

/// Blend one channel and round it back to a sample.
fn tint_channel(nc: u32, tc: u32, ts: u64) -> (v: u8)
    requires
        nc <= 1000,
        tc <= 1000,
        ts <= 1000,
    ensures
        v as int == milli_to_byte(tint_channel_milli(nc as int, tc as int, ts as int)),
{
    let m: u64 = if tc >= nc {
        proof {
            lemma_mul_upper_bound(tc as int - nc as int, 1000, ts as int, 1000);
            assert((tc - nc) as int * ts as int == ts as int * (tc as int - nc as int))
                by (nonlinear_arith);
            lemma_ratio_le(ts as int, 1000, tc as int - nc as int);
        }
        nc as u64 + (tc - nc) as u64 * ts / 1000
    } else {
        proof {
            lemma_mul_upper_bound(nc as int - tc as int, 1000, ts as int, 1000);
            assert((nc - tc) as int * ts as int == ts as int * (nc as int - tc as int))
                by (nonlinear_arith);
            lemma_ratio_le(ts as int, 1000, nc as int - tc as int);
        }
        nc as u64 - (nc - tc) as u64 * ts / 1000
    };
    assert(m <= 1000);
    proof {
        lemma_div_is_ordered(m as int * 255 + 500, 255500, 1000);
    }
    let v = (m * 255 + 500) / 1000;
    v as u8
}

/// Tint one pixel.
#[verifier::rlimit(60)]
pub fn tint_pixel(r: u8, g: u8, b: u8, t: &TintAdjustment) -> (out: (u8, u8, u8))
    ensures
        out.0 as int == tint_pixel_spec(r as int, g as int, b as int, *t).0,
        out.1 as int == tint_pixel_spec(r as int, g as int, b as int, *t).1,
        out.2 as int == tint_pixel_spec(r as int, g as int, b as int, *t).2,
{
    proof {
        lemma_ratio_le(r as int, 255, 1000);
        lemma_ratio_le(g as int, 255, 1000);
        lemma_ratio_le(b as int, 255, 1000);
    }
    let nr = r as u32 * 1000 / 255;
    let ng = g as u32 * 1000 / 255;
    let nb = b as u32 * 1000 / 255;
    let gray = get_grayscale(nr, ng, nb);
    let dr = if nr >= gray { nr - gray } else { gray - nr };
    let dg = if ng >= gray { ng - gray } else { gray - ng };
    let db = if nb >= gray { nb - gray } else { gray - nb };
    let cd = dr + dg + db;

    let gf: u32 = if t.preserve_gray > 0 {
        let pg = if t.preserve_gray > 1000 { 1000 } else { t.preserve_gray };
        let base: u32 = if 2 * cd < 1000 { 1000 - 2 * cd } else { 0 };
        proof {
            lemma_mul_upper_bound(base as int, 1000, pg as int, 1000);
            assert(base as int * pg as int == pg as int * base as int) by (nonlinear_arith);
            lemma_ratio_le(pg as int, 1000, base as int);
        }
        base * pg / 1000
    } else {
        0
    };
    assert(gf <= 1000);

    let hsl = rgb_to_hsl(r, g, b);

    let lf: u64 = if t.luminance_mask > 0 {
        let mask: u32 = if t.luminance_mask > 1000 { 1000 } else { t.luminance_mask as u32 };
        proof {
            lemma_ratio_le(hsl.2 as int, 1000, 65536);
        }
        let x = hsl.2 as u64 * 65536 / 1000;
        let p = fix_pow_exec(x, 1024 + mask * 1024 / 1000);
        proof {
            lemma_ratio_le(p as int, 65536, 1000);
        }
        p * 1000 / 65536
    } else {
        1000
    };
    assert(lf <= 1000);

    let st: u64 = if t.strength > 1000 { 1000 } else { t.strength as u64 };
    proof {
        lemma_mul_upper_bound(st as int, 1000, 1000 - gf as int, 1000);
        assert(st as int * (1000 - gf as int) == (1000 - gf as int) * st as int)
            by (nonlinear_arith);
        lemma_ratio_le(1000 - gf as int, 1000, st as int);
    }
    let ts1: u64 = st * (1000 - gf) as u64 / 1000;
    proof {
        lemma_mul_upper_bound(ts1 as int, 1000, lf as int, 1000);
        assert(ts1 as int * lf as int == lf as int * ts1 as int) by (nonlinear_arith);
        lemma_ratio_le(lf as int, 1000, ts1 as int);
    }
    let ts: u64 = ts1 * lf / 1000;
    assert(ts as int == tint_strength_spec(r as int, g as int, b as int, *t));

    if ts > 0 {
        let sat = if hsl.1 > 1000 { 1000 } else { hsl.1 };
        let target = hsl_to_rgb(t.hue, sat, hsl.2);
        let vr = tint_channel(nr, target.0, ts);
        let vg = tint_channel(ng, target.1, ts);
        let vb = tint_channel(nb, target.2, ts);
        (vr, vg, vb)
    } else {
        (r, g, b)
    }
}

/// Pull every pixel toward the adjustment's hue; alpha is preserved.
pub fn adjust_tint(img: &Raster, tint: &TintAdjustment) -> (out: Raster)
    requires
        img.wf(),
    ensures
        out.wf(),
        out.width == img.width,
        out.height == img.height,
        out.data@ == tint_spec(img.data@, *tint),
{
    let npix = img.pixels();
    let n = img.data.len();
    let mut data: Vec<u8> = Vec::new();
    let mut p: usize = 0;
    while p < npix
        invariant
            p <= npix,
            n == img.data@.len(),
            npix * 4 == n,
            img.wf(),
            data@.len() == 4 * p,
            forall|j: int| 0 <= j < 4 * p ==> data@[j] == tint_at(img.data@, *tint, j),
        decreases npix - p,
    {
        let base = 4 * p;
        let r = img.data[base];
        let g = img.data[base + 1];
        let b = img.data[base + 2];
        let a = img.data[base + 3];
        let out = tint_pixel(r, g, b, tint);
        data.push(out.0);
        data.push(out.1);
        data.push(out.2);
        data.push(a);
        proof {
            lemma_sample_split(p as int, 0);
            lemma_sample_split(p as int, 1);
            lemma_sample_split(p as int, 2);
            lemma_sample_split(p as int, 3);
        }
        assert(forall|j: int| 4 * p <= j < 4 * p + 4 ==> data@[j] == tint_at(img.data@, *tint, j));
        p = p + 1;
    }
    let out = Raster { width: img.width, height: img.height, data };
    assert(out.data@ =~= tint_spec(img.data@, *tint));
    out
}

} // verus!
