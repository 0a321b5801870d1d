//! The stated laws of the pipeline: neutral controls change nothing,
//! exposure is exactly a clamped scaling and monotonic in its factor,
//! grayscale equalizes the color channels, the spatial stages leave their
//! borders untouched, and zero-amplitude grain is exact.

use vstd::prelude::*;
use crate::math::{clamp_int, clamp_255, fix_pow};
use crate::raster::chan;
use crate::pointwise::{exposure_spec, exposure_at, enhance_spec, enhance_at, grayscale_spec};
use crate::whites::{whites_spec, whites_at, whites_offset, whites_channel};
use crate::blacks::{blacks_spec, blacks_at, blacks_channel, blacks_threshold, blacks_exponent};
use crate::sharpen::{sharpen_spec, sharpen_at, interior1};
use crate::glow::{glow_spec, glow_at, interior3};
use crate::tint::{tint_spec, tint_at, tint_strength_spec, norm_milli, TintAdjustment};
use crate::color::{min2, luma_milli, rgb_to_hsl_spec};
use crate::math::abs_int;
use crate::grain::grain_bounded;
use crate::params::FilterParameters;
use crate::pipeline::{pre_grain_spec, tint_list_spec};
use crate::math::lemma_fix_pow_one;
use vstd::arithmetic::div_mod::{
    lemma_div_multiples_vanish, lemma_div_multiples_vanish_fancy, lemma_fundamental_div_mod,
    lemma_mod_bound, lemma_div_is_ordered, lemma_multiply_divide_lt, lemma_div_of0,
};
use vstd::arithmetic::mul::{lemma_mul_is_commutative, lemma_mul_inequality, lemma_mul_basics};

verus! {

/// A factor of exactly one scales no sample: exposure at 1000 is the
/// identity.
pub proof fn lemma_exposure_identity(s: Seq<u8>)
    ensures
        exposure_spec(s, 1000) == s,
{
    assert forall|i: int| 0 <= i < s.len() implies exposure_at(s, 1000, i) == s[i] by {
        lemma_mul_is_commutative(s[i] as int, 1000);
        lemma_div_multiples_vanish(s[i] as int, 1000);
    }
    assert(exposure_spec(s, 1000) =~= s);
}

/// Color enhancement at 1000 is the identity.
pub proof fn lemma_enhance_identity(s: Seq<u8>)
    ensures
        enhance_spec(s, 1000) == s,
{
    assert forall|i: int| 0 <= i < s.len() implies enhance_at(s, 1000, i) == s[i] by {
        lemma_mul_is_commutative(s[i] as int, 1000);
        lemma_div_multiples_vanish(s[i] as int, 1000);
    }
    assert(enhance_spec(s, 1000) =~= s);
}

/// A whites control of 1000 maps to offset zero, and offset zero rounds
/// every sample back to itself: the stage is an exact identity.
pub proof fn lemma_whites_identity(s: Seq<u8>)
    ensures
        whites_spec(s, 1000) == s,
{
    assert(whites_offset(1000) == 0);
    assert forall|i: int| 0 <= i < s.len() implies whites_at(s, 1000, i) == s[i] by {
        let c = s[i] as int;
        assert(whites_channel(c, 0) == clamp_255((c * 1000 + 500) / 1000));
        assert((c * 1000 + 500) / 1000 == c) by {
            lemma_mul_is_commutative(c, 1000);
            lemma_div_multiples_vanish_fancy(c, 500, 1000);
        }
    }
    assert(whites_spec(s, 1000) =~= s);
}

/// A blacks adjustment of zero gives threshold 500 and exponent one, whose
/// remap rounds every sample back to itself: the stage is an exact
/// identity.
pub proof fn lemma_blacks_identity(s: Seq<u8>)
    ensures
        blacks_spec(s, 0) == s,
{
    assert(clamp_int(0, -1000, 1000) == 0);
    assert(blacks_threshold(0) == 500 && blacks_exponent(0) == 1024);
    assert forall|i: int| 0 <= i < s.len() implies blacks_at(s, 0, i) == s[i] by {
        let c = s[i] as int;
        if c * 1000 < 500 * 255 {
            let x = c * 65536000 / 127500;
            assert(c * 65536000 < 127500 * 65536) by (nonlinear_arith)
                requires 0 <= c <= 127;
            lemma_multiply_divide_lt(c * 65536000, 127500, 65536);
            assert(c * 65536000 >= 0) by (nonlinear_arith)
                requires c >= 0;
            lemma_div_is_ordered(0, c * 65536000, 127500);
            lemma_fix_pow_one(x);
            assert(fix_pow(x, 1024) == x);
            lemma_fundamental_div_mod(c * 65536000, 127500);
            let r = (c * 65536000) % 127500;
            lemma_mod_bound(c * 65536000, 127500);
            assert(x * 500 * 255 == 127500 * x) by (nonlinear_arith);
            assert(x * 500 * 255 + 32768000 == 65536000 * c + (32768000 - r)) by {
                lemma_mul_is_commutative(c, 65536000);
            }
            assert((65536000 * c + (32768000 - r)) / 65536000 == c) by {
                lemma_div_multiples_vanish_fancy(c, 32768000 - r, 65536000);
            }
            assert(blacks_channel(c, 500, 1024) == clamp_255(c));
        }
    }
    assert(blacks_spec(s, 0) =~= s);
}

/// Sharpness zero turns the kernel into the identity kernel.
pub proof fn lemma_sharpen_zero(s: Seq<u8>, w: int, h: int)
    ensures
        sharpen_spec(s, w, h, 0) == s,
{
    assert forall|i: int| 0 <= i < s.len() implies sharpen_at(s, w, h, 0, i) == s[i] by {
        lemma_fundamental_div_mod(i, 4);
        if w != 0 {
            lemma_fundamental_div_mod(i / 4, w);
            lemma_mul_is_commutative(w, i / 4 / w);
        }
        let cv = chan(s, w, i / 4 % w, i / 4 / w, i % 4);
        lemma_mul_is_commutative(cv, 1000);
        lemma_div_multiples_vanish(cv, 1000);
    }
    assert(sharpen_spec(s, w, h, 0) =~= s);
}

/// Glow intensity zero blends nothing in.
pub proof fn lemma_glow_zero(s: Seq<u8>, w: int, h: int)
    ensures
        glow_spec(s, w, h, 0) == s,
{
    assert forall|i: int| 0 <= i < s.len() implies glow_at(s, w, h, 0, i) == s[i] by {
        lemma_fundamental_div_mod(i, 4);
        if w != 0 {
            lemma_fundamental_div_mod(i / 4, w);
            lemma_mul_is_commutative(w, i / 4 / w);
        }
        let cv = chan(s, w, i / 4 % w, i / 4 / w, i % 4);
        lemma_mul_is_commutative(cv, 1000);
        lemma_div_multiples_vanish(cv, 1000);
        lemma_mul_basics(crate::glow::glow_sum(s, w, i / 4 % w, i / 4 / w, i % 4, 49));
        lemma_div_of0(1000);
    }
    assert(glow_spec(s, w, h, 0) =~= s);
}

/// A tint pass of strength zero is an exact identity, whatever its hue and
/// its other controls.
pub proof fn lemma_tint_strength_zero(s: Seq<u8>, t: TintAdjustment)
    requires
        t.strength == 0,
    ensures
        tint_spec(s, t) == s,
{
    assert forall|i: int| 0 <= i < s.len() implies tint_at(s, t, i) == s[i] by {
        lemma_fundamental_div_mod(i, 4);
        let p = i / 4;
        let r = s[4 * p] as int;
        let g = s[4 * p + 1] as int;
        let b = s[4 * p + 2] as int;
        let nr = norm_milli(r);
        let ng = norm_milli(g);
        let nb = norm_milli(b);
        let gray = luma_milli(nr, ng, nb);
        let cd = abs_int(nr - gray) + abs_int(ng - gray) + abs_int(nb - gray);
        let gf = if t.preserve_gray > 0 {
            (if 1000 - 2 * cd > 0 { 1000 - 2 * cd } else { 0 })
                * min2(t.preserve_gray as int, 1000) / 1000
        } else {
            0
        };
        let lf = if t.luminance_mask > 0 {
            fix_pow(
                rgb_to_hsl_spec(r, g, b).2 * 65536 / 1000,
                1024 + min2(t.luminance_mask as int, 1000) * 1024 / 1000,
            ) * 1000 / 65536
        } else {
            1000
        };
        lemma_mul_basics(1000 - gf);
        lemma_div_of0(1000);
        assert(0int * (1000 - gf) == 0);
        assert(0int * (1000 - gf) / 1000 == 0);
        lemma_mul_basics(lf);
        assert(0int * lf == 0);
        assert(tint_strength_spec(r, g, b, t) == 0);
    }
    assert(tint_spec(s, t) =~= s);
}

/// Neutral controls leave the deterministic stages with the input exactly:
/// exposure, whites and enhancement at 1000, blacks, sharpness and glow at
/// zero, grayscale off and no tint pass change no sample.
pub proof fn lemma_identity_parameters(s: Seq<u8>, w: int, h: int, p: FilterParameters)
    requires
        p.exposure == 1000,
        p.whites == 1000,
        p.blacks == 0,
        !p.apply_grayscale,
        p.color_enhancement == 1000,
        p.sharpness == 0,
        p.glow_intensity == 0,
        p.tint@.len() == 0,
    ensures
        pre_grain_spec(s, w, h, p) == s,
{
    lemma_exposure_identity(s);
    lemma_whites_identity(s);
    lemma_blacks_identity(s);
    lemma_enhance_identity(s);
    lemma_sharpen_zero(s, w, h);
    lemma_glow_zero(s, w, h);
}

/// Grain of amplitude zero is exact: the bounds pin every sample.
pub proof fn lemma_grain_zero_exact(pre: Seq<u8>, out: Seq<u8>)
    requires
        grain_bounded(pre, out, 0),
    ensures
        out == pre,
{
    assert forall|i: int| 0 <= i < out.len() implies out[i] == pre[i] by {
        if i % 4 != 3 {
            assert(clamp_255(pre[i] - 0) <= out[i] <= clamp_255(pre[i] + 0));
        }
    }
    assert(out =~= pre);
}

/// Exposure scales each color sample to clamp(c * e / 1000, 0, 255), which
/// does not decrease when the factor grows.
pub proof fn lemma_exposure_monotonic(s: Seq<u8>, e1: int, e2: int, i: int)
    requires
        0 <= e1 <= e2,
        0 <= i < s.len(),
    ensures
        exposure_at(s, e1, i) <= exposure_at(s, e2, i),
{
    if i % 4 != 3 {
        let c = s[i] as int;
        lemma_mul_inequality(e1, e2, c);
        lemma_mul_is_commutative(e1, c);
        lemma_mul_is_commutative(e2, c);
        lemma_div_is_ordered(c * e1, c * e2, 1000);
    }
}

/// After grayscale, the three color channels of every pixel agree and the
/// alpha sample is unchanged.
pub proof fn lemma_grayscale_pixel(s: Seq<u8>, p: int)
    requires
        0 <= p,
        4 * p + 3 < s.len(),
    ensures
        grayscale_spec(s)[4 * p] == grayscale_spec(s)[4 * p + 1],
        grayscale_spec(s)[4 * p + 1] == grayscale_spec(s)[4 * p + 2],
        grayscale_spec(s)[4 * p + 3] == s[4 * p + 3],
{
    crate::raster::lemma_sample_split(p, 0);
    crate::raster::lemma_sample_split(p, 1);
    crate::raster::lemma_sample_split(p, 2);
    crate::raster::lemma_sample_split(p, 3);
}

/// No tint pass touches an alpha sample.
pub proof fn lemma_tint_list_alpha(s: Seq<u8>, ts: Seq<TintAdjustment>)
    ensures
        tint_list_spec(s, ts).len() == s.len(),
        forall|i: int| 0 <= i < s.len() && i % 4 == 3 ==> tint_list_spec(s, ts)[i] == s[i],
    decreases ts.len(),
{
    if ts.len() > 0 {
        let s2 = tint_spec(s, ts[0]);
        assert forall|i: int| 0 <= i < s.len() && i % 4 == 3 implies s2[i] == s[i] by {}
        lemma_tint_list_alpha(s2, ts.drop_first());
    }
}

/// Every deterministic stage preserves the sample count and the alpha
/// samples, so the whole chain short of grain does too; the grain bounds
/// extend this to the full pipeline.
pub proof fn lemma_alpha_preserved(s: Seq<u8>, w: int, h: int, p: FilterParameters)
    ensures
        pre_grain_spec(s, w, h, p).len() == s.len(),
        forall|i: int| 0 <= i < s.len() && i % 4 == 3 ==> pre_grain_spec(s, w, h, p)[i] == s[i],
{
    let s1 = exposure_spec(s, p.exposure as int);
    let s2 = whites_spec(s1, p.whites as int);
    let s3 = blacks_spec(s2, p.blacks as int);
    let s4 = if p.apply_grayscale { grayscale_spec(s3) } else { s3 };
    let s5 = enhance_spec(s4, p.color_enhancement as int);
    let s6 = sharpen_spec(s5, w, h, p.sharpness as int);
    let s7 = glow_spec(s6, w, h, p.glow_intensity as int);
    assert forall|i: int| 0 <= i < s.len() && i % 4 == 3 implies s7[i] == s[i] by {
        assert(s1[i] == s[i]);
        assert(s2[i] == s[i]);
        assert(s3[i] == s[i]);
        assert(s4[i] == s[i]);
        assert(s5[i] == s[i]);
        assert(s6[i] == s[i]);
    }
    lemma_tint_list_alpha(s7, p.tint@);
}

/// The sharpen stage leaves the outermost one-pixel frame, and every alpha
/// sample, byte-identical to its input.
pub proof fn lemma_sharpen_border(s: Seq<u8>, w: int, h: int, sh: int, i: int)
    requires
        0 <= i < s.len(),
        i % 4 == 3 || !interior1(w, h, i / 4 % w, i / 4 / w),
    ensures
        sharpen_spec(s, w, h, sh)[i] == s[i],
{
}

/// The glow stage leaves the outermost three-pixel frame, and every alpha
/// sample, byte-identical to its input.
pub proof fn lemma_glow_border(s: Seq<u8>, w: int, h: int, g: int, i: int)
    requires
        0 <= i < s.len(),
        i % 4 == 3 || !interior3(w, h, i / 4 % w, i / 4 / w),
    ensures
        glow_spec(s, w, h, g)[i] == s[i],
{
}

} // verus!
