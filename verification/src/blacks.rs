//! The blacks stage: a threshold curve that remaps dark samples.

use vstd::prelude::*;
use crate::math::{clamp_int, clamp_255, fix_pow, fix_pow_exec, lemma_fix_pow_bound};
use crate::raster::Raster;
use vstd::arithmetic::mul::lemma_mul_upper_bound;
use vstd::arithmetic::div_mod::{lemma_div_is_ordered, lemma_multiply_divide_lt};

verus! {

/// The threshold below which samples are remapped, in thousandths of full
/// scale, for an adjustment already clamped to -1000..1000.
pub open spec fn blacks_threshold(a: int) -> int {
    if a > 0 {
        500 + a / 2
    } else {
        500 - (-a) / 2
    }
}

/// The curve exponent on the 1024 scale, for a clamped adjustment.
pub open spec fn blacks_exponent(a: int) -> int {
    if a > 0 {
        1024 + a * 1024 / 1000
    } else {
        1024 - (-a) * 1024 / 1000
    }
}

/// One color sample under the blacks curve: samples below the threshold are
/// remapped through (v/t)^e * t in normalized space, rounded back to a
/// sample value; samples at or above the threshold pass through.
pub open spec fn blacks_channel(c: int, t: int, e: int) -> int {
    if c * 1000 < t * 255 {
        let x = c * 65536000 / (255 * t);
        let p = fix_pow(x, e);
        clamp_255((p * t * 255 + 32768000) / 65536000)
    } else {
        c
    }
}

pub open spec fn blacks_at(s: Seq<u8>, a_raw: int, i: int) -> u8 {
    let a = clamp_int(a_raw, -1000, 1000);
    if i % 4 == 3 {
        s[i]
    } else {
        blacks_channel(s[i] as int, blacks_threshold(a), blacks_exponent(a)) as u8
    }
}

pub open spec fn blacks_spec(s: Seq<u8>, a_raw: int) -> Seq<u8> {
    Seq::new(s.len(), |i: int| blacks_at(s, a_raw, i))
}

/// The fraction v/t on the 2^16 scale stays below one for v below t.
proof fn lemma_blacks_fraction(c: int, t: int)
    requires
        0 <= c,
        c * 1000 < t * 255,
    ensures
        t >= 1,
        0 <= c * 65536000 / (255 * t) < 65536,
{
    assert(t >= 1) by (nonlinear_arith)
        requires 0 <= c && c * 1000 < t * 255;
    assert(c * 65536000 < (255 * t) * 65536) by (nonlinear_arith)
        requires c * 1000 < t * 255;
    lemma_multiply_divide_lt(c * 65536000, 255 * t, 65536);
    assert(c * 65536000 >= 0) by (nonlinear_arith)
        requires c >= 0;
    lemma_div_is_ordered(0, c * 65536000, 255 * t);
}

/// The remapped sample stays within the 8-bit range before clamping.
proof fn lemma_blacks_result_bound(p: int, t: int)
    requires
        0 <= p <= 65536,
        0 <= t <= 1000,
    ensures
        0 <= (p * t * 255 + 32768000) / 65536000 <= 255,
{
    lemma_mul_upper_bound(p, 65536, t, 1000);
    lemma_mul_upper_bound(p * t, 65536000, 255, 255);
    assert(p * t >= 0) by (nonlinear_arith)
        requires p >= 0 && t >= 0;
    assert(p * t * 255 >= 0) by (nonlinear_arith)
        requires p * t >= 0;
    lemma_div_is_ordered(0, p * t * 255 + 32768000, 65536000);
    lemma_div_is_ordered(p * t * 255 + 32768000, 65536000int * 255 + 32768000, 65536000);
}

/// Apply the blacks curve for adjustment `blacks` (thousandths, clamped to
/// -1000..1000, 0 is the identity) to every color sample; alpha is
/// preserved.
pub fn adjust_blacks(img: &Raster, blacks: i32) -> (out: Raster)
    requires
        img.wf(),
    ensures
        out.wf(),
        out.width == img.width,
        out.height == img.height,
        out.data@ == blacks_spec(img.data@, blacks as int),
{
    let a: i32 = if blacks > 1000 {
        1000
    } else if blacks < -1000 {
        -1000
    } else {
        blacks
    };
    let mag: u32 = if a >= 0 { a as u32 } else { (-a) as u32 };
    let t: u64 = if a > 0 { 500 + (mag / 2) as u64 } else { 500 - (mag / 2) as u64 };
    let e: u32 = if a > 0 {
        1024 + mag * 1024 / 1000
    } else {
        1024 - mag * 1024 / 1000
    };
    proof {
        assert(t as int == blacks_threshold(clamp_int(blacks as int, -1000, 1000)));
        assert(e as int == blacks_exponent(clamp_int(blacks as int, -1000, 1000)));
    }

    let n = img.data.len();
    let mut data: Vec<u8> = Vec::new();
    let mut i: usize = 0;
    while i < n
        invariant
            i <= n,
            n == img.data@.len(),
            img.wf(),
            t <= 1000,
            t as int == blacks_threshold(clamp_int(blacks as int, -1000, 1000)),
            e as int == blacks_exponent(clamp_int(blacks as int, -1000, 1000)),
            data@.len() == i,
            forall|j: int| 0 <= j < i ==> data@[j] == blacks_at(img.data@, blacks as int, j),
        decreases n - i,
    {
        let c = img.data[i];
        if i % 4 == 3 {
            data.push(c);
        } else {
            let c64 = c as u64;
            let v: u8 = if c64 * 1000 < t * 255 {
                proof {
                    lemma_blacks_fraction(c as int, t as int);
                }
                let x = c64 * 65536000 / (255 * t);
                let p = fix_pow_exec(x, e);
                proof {
                    lemma_fix_pow_bound(x as int, e as int);
                    lemma_blacks_result_bound(p as int, t as int);
                    lemma_mul_upper_bound(p as int, 65536, t as int, 1000);
                    lemma_mul_upper_bound(p as int * t as int, 65536000, 255, 255);
                }
                let r = (p * t * 255 + 32768000) / 65536000;
                r as u8
            } else {
                c
            };
            assert(v == blacks_at(img.data@, blacks as int, i as int));
            data.push(v);
        }
        i = i + 1;
    }
    let out = Raster { width: img.width, height: img.height, data };
    assert(out.data@ =~= blacks_spec(img.data@, blacks as int));
    out
}

} // verus!
