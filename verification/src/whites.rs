//! The whites stage: a non-linear curve that pushes or protects highlights.

use vstd::prelude::*;
use crate::math::{clamp_int, clamp_255, sqrt_floor};
use crate::raster::Raster;
use vstd::arithmetic::mul::lemma_mul_upper_bound;

verus! {

/// The public 0..2000 control maps to an offset in -128..128; a control of
/// 1000 is the neutral point.
pub open spec fn whites_offset(w: int) -> int {
    let wc = clamp_int(w, 0, 2000);
    if wc >= 1000 {
        (wc - 1000) * 128 / 1000
    } else {
        -((1000 - wc) * 128 / 1000)
    }
}

/// One color sample under a whites offset. A positive offset adds
/// offset * sqrt(c/255), so brighter samples move more; a non-positive one
/// adds offset * (c/255)^2, so darker samples are protected. The result is
/// rounded to the nearest sample value and clamped.
pub open spec fn whites_channel(c: int, off: int) -> int {
    if off > 0 {
        let fac = sqrt_floor(c * 1000000 / 255);
        clamp_255((c * 1000 + off * fac + 500) / 1000)
    } else {
        let m = (-off) * c * c * 1000 / 65025;
        if c * 1000 < m {
            0
        } else {
            clamp_255((c * 1000 - m + 500) / 1000)
        }
    }
}

pub open spec fn whites_at(s: Seq<u8>, w: int, i: int) -> u8 {
    if i % 4 == 3 {
        s[i]
    } else {
        whites_channel(s[i] as int, whites_offset(w)) as u8
    }
}

pub open spec fn whites_spec(s: Seq<u8>, w: int) -> Seq<u8> {
    Seq::new(s.len(), |i: int| whites_at(s, w, i))
}

/// Apply the whites curve for control value `whites` (thousandths, 1000 is
/// the identity) to every color sample; alpha is preserved.
pub fn adjust_whites(img: &Raster, whites: u32) -> (out: Raster)
    requires
        img.wf(),
    ensures
        out.wf(),
        out.width == img.width,
        out.height == img.height,
        out.data@ == whites_spec(img.data@, whites as int),
{
    let wc: u32 = if whites > 2000 { 2000 } else { whites };

    let mag: u64 = if wc >= 1000 {
        ((wc - 1000) as u64) * 128 / 1000
    } else {
        ((1000 - wc) as u64) * 128 / 1000
    };
    let positive: bool = wc >= 1000 && mag > 0;
    proof {
        assert(whites_offset(whites as int) == if positive { mag as int } else { -(mag as int) });
        assert(mag <= 128);
    }

    let n = img.data.len();
    let mut data: Vec<u8> = Vec::new();
    let mut i: usize = 0;
    while i < n
        invariant
            i <= n,
            n == img.data@.len(),
            img.wf(),
            mag <= 128,
            positive ==> mag > 0,
            (if positive { mag as int } else { -(mag as int) }) == whites_offset(whites as int),
            data@.len() == i,
            forall|j: int| 0 <= j < i ==> data@[j] == whites_at(img.data@, whites as int, j),
        decreases n - i,
    {
        let c = img.data[i];
        if i % 4 == 3 {
            data.push(c);
        } else {
            let c64 = c as u64;
            let v: u8 = if positive {
                let fac = crate::math::isqrt(c64 * 1000000 / 255);
                proof {
                    lemma_mul_upper_bound(mag as int, 128, fac as int, 65536);
                }
                let t = (c64 * 1000 + mag * fac + 500) / 1000;
                if t > 255 { 255u8 } else { t as u8 }
            } else {
                proof {
                    lemma_mul_upper_bound(mag as int, 128, c64 as int, 255);
                    lemma_mul_upper_bound(mag as int * c64 as int, 32640, c64 as int, 255);
                }
                let m = mag * c64 * c64 * 1000 / 65025;
                if c64 * 1000 < m {
                    0u8
                } else {
                    let t = (c64 * 1000 - m + 500) / 1000;
                    if t > 255 { 255u8 } else { t as u8 }
                }
            };
            assert(v == whites_at(img.data@, whites as int, i as int));
            data.push(v);
        }
        i = i + 1;
    }
    let out = Raster { width: img.width, height: img.height, data };
    assert(out.data@ =~= whites_spec(img.data@, whites as int));
    out
}

} // verus!
