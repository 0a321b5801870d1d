//! Color space helpers: RGB to HSL and back, and the BT.601 luma used by
//! the tint stage's grayness test.
//!
//! Hue is kept in thousandths of a degree, saturation and lightness in
//! thousandths of full scale.

use vstd::prelude::*;
use vstd::arithmetic::div_mod::{lemma_div_is_ordered, lemma_div_multiples_vanish, lemma_mod_bound};
use vstd::arithmetic::mul::{lemma_mul_inequality, lemma_mul_nonnegative, lemma_mul_upper_bound};

verus! {

pub open spec fn max2(a: int, b: int) -> int {
    if a >= b { a } else { b }
}

pub open spec fn min2(a: int, b: int) -> int {
    if a <= b { a } else { b }
}

/// 0 <= a <= b with b positive keeps a scaled ratio below its scale:
/// a * k / b lies in 0..k.
pub proof fn lemma_ratio_le(a: int, b: int, k: int)
    requires
        0 <= a <= b,
        1 <= b,
        0 <= k,
    ensures
        0 <= a * k / b <= k,
{
    lemma_mul_inequality(a, b, k);
    lemma_mul_nonnegative(a, k);
    lemma_div_is_ordered(0, a * k, b);
    lemma_div_is_ordered(a * k, b * k, b);
    assert(b * k == k * b) by (nonlinear_arith);
    lemma_div_multiples_vanish(k, b);
}

/// RGB samples (0..255) to hue (thousandths of a degree, 0..360000),
/// saturation and lightness (thousandths, 0..1000), by the standard
/// max/min/delta construction. A gray pixel has hue and saturation zero.
pub open spec fn rgb_to_hsl_spec(r: int, g: int, b: int) -> (int, int, int) {
    let mx = max2(max2(r, g), b);
    let mn = min2(min2(r, g), b);
    let delta = mx - mn;
    let l = (mx + mn) * 1000 / 510;
    if delta == 0 {
        (0, 0, l)
    } else {
        let s = if mx + mn < 255 {
            delta * 1000 / (mx + mn)
        } else {
            delta * 1000 / (510 - mx - mn)
        };
        let h = if r == mx {
            if g >= b {
                (g - b) * 60000 / delta
            } else {
                360000 - (b - g) * 60000 / delta
            }
        } else if g == mx {
            if b >= r {
                120000 + (b - r) * 60000 / delta
            } else {
                120000 - (r - b) * 60000 / delta
            }
        } else {
            if r >= g {
                240000 + (r - g) * 60000 / delta
            } else {
                240000 - (g - r) * 60000 / delta
            }
        };
        (h, s, l)
    }
}

/// One channel of the hue-to-RGB ramp, for fractional position t
/// (thousandths of a turn) between the inner color levels p and q.
pub open spec fn hsl_channel(p: int, q: int, t: int) -> int {
    if 6 * t < 1000 {
        p + (q - p) * (6 * t) / 1000
    } else if 2 * t < 1000 {
        q
    } else if 3 * t < 2000 {
        p + (q - p) * (4000 - 6 * t) / 1000
    } else {
        p
    }
}

/// HSL (hue in thousandths of a degree, the rest in thousandths) back to
/// RGB channel levels in thousandths. Zero saturation gives a gray pixel.
pub open spec fn hsl_to_rgb_spec(h: int, s: int, l: int) -> (int, int, int) {
    if s == 0 {
        (l, l, l)
    } else {
        let q = if l < 500 {
            l * (1000 + s) / 1000
        } else {
            l + s - l * s / 1000
        };
        let p = 2 * l - q;
        let hfrac = h / 360;
        let tr = (hfrac + 333) % 1000;
        let tg = hfrac;
        let tb = (hfrac + 667) % 1000;
        (hsl_channel(p, q, tr), hsl_channel(p, q, tg), hsl_channel(p, q, tb))
    }
}

/// The inner levels p and q of the hue ramp stay ordered in 0..1000.
pub proof fn lemma_hsl_pq_bounds(s: int, l: int)
    requires
        1 <= s <= 1000,
        0 <= l <= 1000,
    ensures
        ({
            let q = if l < 500 { l * (1000 + s) / 1000 } else { l + s - l * s / 1000 };
            let p = 2 * l - q;
            0 <= p <= l <= q <= 1000
        }),
{
    if l < 500 {
        let q = l * (1000 + s) / 1000;
        assert(l * 1000 <= l * (1000 + s) <= l * 2000) by (nonlinear_arith)
            requires 0 <= l && 1 <= s <= 1000;
        lemma_div_is_ordered(l * 1000, l * (1000 + s), 1000);
        lemma_div_is_ordered(l * (1000 + s), l * 2000, 1000);
        assert(l * 1000 == 1000 * l && l * 2000 == 1000 * (2 * l)) by (nonlinear_arith);
        lemma_div_multiples_vanish(l, 1000);
        lemma_div_multiples_vanish(2 * l, 1000);
        assert(l <= q <= 2 * l);
        assert(q <= 998000int / 1000) by {
            assert(l * (1000 + s) <= 499 * 2000) by (nonlinear_arith)
                requires 0 <= l <= 499 && 1 <= s <= 1000;
            lemma_div_is_ordered(l * (1000 + s), 998000, 1000);
        }
    } else {
        let d = l * s / 1000;
        let q = l + s - d;
        assert(l * s <= 1000 * s && l * s == s * l <= 1000 * l) by (nonlinear_arith)
            requires 0 <= l <= 1000 && 0 <= s <= 1000;
        lemma_div_is_ordered(l * s, 1000 * s, 1000);
        lemma_div_is_ordered(l * s, 1000 * l, 1000);
        lemma_div_multiples_vanish(s, 1000);
        lemma_div_multiples_vanish(l, 1000);
        assert(d <= s && d <= l);
        assert(l <= q);
        // q <= 1000, since l * s >= 1000 * (l + s - 1000)
        assert(l * s >= 1000 * (l + s - 1000)) by (nonlinear_arith)
            requires l <= 1000 && s <= 1000;
        lemma_div_is_ordered(1000 * (l + s - 1000), l * s, 1000);
        lemma_div_multiples_vanish(l + s - 1000, 1000);
        assert(q <= 1000);
        // q <= 2l, since l * s >= 1000 * (s - l) when l >= 500
        assert(l * s >= 1000 * (s - l)) by (nonlinear_arith)
            requires 500 <= l <= 1000 && 0 <= s <= 1000;
        lemma_div_is_ordered(1000 * (s - l), l * s, 1000);
        lemma_div_multiples_vanish(s - l, 1000);
        assert(q <= 2 * l);
        lemma_mul_nonnegative(l, s);
        lemma_div_is_ordered(0, l * s, 1000);
    }
}

/// The hue ramp keeps each channel between p and q.
pub proof fn lemma_hsl_channel_bound(p: int, q: int, t: int)
    requires
        0 <= p <= q <= 1000,
        0 <= t,
    ensures
        p <= hsl_channel(p, q, t) <= q,
{
    if 6 * t < 1000 {
        assert((q - p) * (6 * t) == (6 * t) * (q - p)) by (nonlinear_arith);
        lemma_ratio_le(6 * t, 1000, q - p);
        assert((6 * t) * (q - p) / 1000 <= q - p);
        assert((q - p) * (6 * t) / 1000 >= 0);
    } else if 2 * t < 1000 {
    } else if 3 * t < 2000 {
        let u = 4000 - 6 * t;
        assert(0 < u <= 1000);
        assert((q - p) * u == u * (q - p)) by (nonlinear_arith);
        lemma_ratio_le(u, 1000, q - p);
    }
}

/// The BT.601 luma of channel levels given in thousandths.
pub open spec fn luma_milli(r: int, g: int, b: int) -> int {
    (299 * r + 587 * g + 114 * b) / 1000
}

/// Convert a pixel's samples to hue, saturation and lightness.
pub fn rgb_to_hsl(r: u8, g: u8, b: u8) -> (hsl: (u32, u32, u32))
    ensures
        hsl.0 as int == rgb_to_hsl_spec(r as int, g as int, b as int).0,
        hsl.1 as int == rgb_to_hsl_spec(r as int, g as int, b as int).1,
        hsl.2 as int == rgb_to_hsl_spec(r as int, g as int, b as int).2,
        hsl.0 <= 360000,
        hsl.1 <= 1000,
        hsl.2 <= 1000,
{
    let mx: u32 = if r >= g && r >= b { r as u32 } else if g >= b { g as u32 } else { b as u32 };
    let mn: u32 = if r <= g && r <= b { r as u32 } else if g <= b { g as u32 } else { b as u32 };
    assert(mx as int == max2(max2(r as int, g as int), b as int));
    assert(mn as int == min2(min2(r as int, g as int), b as int));
    let delta = mx - mn;
    proof { lemma_ratio_le((mx + mn) as int, 510, 1000); }
    let l = (mx + mn) * 1000 / 510;
    assert(l <= 1000);
    if delta == 0 {
        (0, 0, l)
    } else {
        let s: u32 = if mx + mn < 255 {
            proof { lemma_ratio_le(delta as int, (mx + mn) as int, 1000); }
            delta * 1000 / (mx + mn)
        } else {
            proof { lemma_ratio_le(delta as int, (510 - mx - mn) as int, 1000); }
            delta * 1000 / (510 - mx - mn)
        };
        let h: u32 = if r as u32 == mx {
            if g >= b {
                proof { lemma_ratio_le((g - b) as int, delta as int, 60000); }
                (g as u32 - b as u32) * 60000 / delta
            } else {
                proof { lemma_ratio_le((b - g) as int, delta as int, 60000); }
                360000 - (b as u32 - g as u32) * 60000 / delta
            }
        } else if g as u32 == mx {
            if b >= r {
                proof { lemma_ratio_le((b - r) as int, delta as int, 60000); }
                120000 + (b as u32 - r as u32) * 60000 / delta
            } else {
                proof { lemma_ratio_le((r - b) as int, delta as int, 60000); }
                120000 - (r as u32 - b as u32) * 60000 / delta
            }
        } else {
            if r >= g {
                proof { lemma_ratio_le((r - g) as int, delta as int, 60000); }
                240000 + (r as u32 - g as u32) * 60000 / delta
            } else {
                proof { lemma_ratio_le((g - r) as int, delta as int, 60000); }
                240000 - (g as u32 - r as u32) * 60000 / delta
            }
        };
        (h, s, l)
    }
}

/// Convert hue, saturation and lightness back to channel levels in
/// thousandths.
pub fn hsl_to_rgb(h: u32, s: u32, l: u32) -> (rgb: (u32, u32, u32))
    requires
        s <= 1000,
        l <= 1000,
    ensures
        rgb.0 as int == hsl_to_rgb_spec(h as int, s as int, l as int).0,
        rgb.1 as int == hsl_to_rgb_spec(h as int, s as int, l as int).1,
        rgb.2 as int == hsl_to_rgb_spec(h as int, s as int, l as int).2,
        rgb.0 <= 1000,
        rgb.1 <= 1000,
        rgb.2 <= 1000,
{
    if s == 0 {
        return (l, l, l);
    }
    proof { lemma_hsl_pq_bounds(s as int, l as int); }
    let q: u32 = if l < 500 {
        l * (1000 + s) / 1000
    } else {
        l + s - l * s / 1000
    };
    let p: u32 = 2 * l - q;
    let hfrac = h / 360;
    let tr = (hfrac + 333) % 1000;
    let tg = hfrac;
    let tb = (hfrac + 667) % 1000;
    proof {
        lemma_mod_bound(hfrac as int + 333, 1000);
        lemma_mod_bound(hfrac as int + 667, 1000);
        lemma_hsl_channel_bound(p as int, q as int, tr as int);
        lemma_hsl_channel_bound(p as int, q as int, tg as int);
        lemma_hsl_channel_bound(p as int, q as int, tb as int);
    }
    let cr = hsl_ramp(p, q, tr);
    let cg = hsl_ramp(p, q, tg);
    let cb = hsl_ramp(p, q, tb);
    (cr, cg, cb)
}

/// One channel of the hue ramp.
fn hsl_ramp(p: u32, q: u32, t: u32) -> (c: u32)
    requires
        p <= q <= 1000,
    ensures
        c as int == hsl_channel(p as int, q as int, t as int),
        c <= 1000,
{
    proof { lemma_hsl_channel_bound(p as int, q as int, t as int); }
    if t < 167 && 6 * t < 1000 {
        proof { lemma_mul_upper_bound(q as int - p as int, 1000, 6 * t as int, 1000); }
        p + (q - p) * (6 * t) / 1000
    } else if t < 500 && 2 * t < 1000 {
        q
    } else if t < 667 && 3 * t < 2000 {
        proof { lemma_mul_upper_bound(q as int - p as int, 1000, 4000 - 6 * t as int, 1000); }
        p + (q - p) * (4000 - 6 * t) / 1000
    } else {
        p
    }
}

/// The BT.601 luma of channel levels given in thousandths.
pub fn get_grayscale(r: u32, g: u32, b: u32) -> (y: u32)
    requires
        r <= 1000,
        g <= 1000,
        b <= 1000,
    ensures
        y as int == luma_milli(r as int, g as int, b as int),
        y <= 1000,
{
    (299 * r + 587 * g + 114 * b) / 1000
}

} // verus!
