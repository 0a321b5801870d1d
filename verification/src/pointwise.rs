//! The per-channel stages: exposure, color enhancement and grayscale.

use vstd::prelude::*;
use crate::math::clamp_255;
use crate::raster::{Raster, lemma_sample_split};
use vstd::arithmetic::mul::lemma_mul_upper_bound;

verus! {

/// Exposure on one sample: scale by a thousandths factor, clamp both ends.
/// Alpha samples pass through.
pub open spec fn exposure_at(s: Seq<u8>, e: int, i: int) -> u8 {
    if i % 4 == 3 {
        s[i]
    } else {
        clamp_255(s[i] * e / 1000) as u8
    }
}

pub open spec fn exposure_spec(s: Seq<u8>, e: int) -> Seq<u8> {
    Seq::new(s.len(), |i: int| exposure_at(s, e, i))
}

/// Scale every color sample by `exposure` thousandths and clamp to 0..255;
/// alpha is preserved.
pub fn adjust_exposure(img: &Raster, exposure: u32) -> (out: Raster)
    requires
        img.wf(),
    ensures
        out.wf(),
        out.width == img.width,
        out.height == img.height,
        out.data@ == exposure_spec(img.data@, exposure as int),
{
    let n = img.data.len();
    let mut data: Vec<u8> = Vec::new();
    let mut i: usize = 0;
    while i < n
        invariant
            i <= n,
            n == img.data@.len(),
            img.wf(),
            data@.len() == i,
            forall|j: int| 0 <= j < i ==> data@[j] == exposure_at(img.data@, exposure as int, j),
        decreases n - i,
    {
        let c = img.data[i];
        if i % 4 == 3 {
            data.push(c);
        } else {
            proof {
                lemma_mul_upper_bound(c as int, 255, exposure as int, 0xffff_ffff);
            }
            let v = c as u64 * exposure as u64 / 1000;
            let clamped: u8 = if v > 255 { 255u8 } else { v as u8 };
            assert(clamped == exposure_at(img.data@, exposure as int, i as int));
            data.push(clamped);
        }
        i = i + 1;
    }
    let out = Raster { width: img.width, height: img.height, data };
    assert(out.data@ =~= exposure_spec(img.data@, exposure as int));
    out
}

/// Color enhancement on one sample: scale by a thousandths factor and clamp
/// the upper bound only. Alpha samples pass through.
pub open spec fn enhance_at(s: Seq<u8>, f: int, i: int) -> u8 {
    if i % 4 == 3 {
        s[i]
    } else {
        let v = s[i] * f / 1000;
        (if v > 255 { 255int } else { v }) as u8
    }
}

pub open spec fn enhance_spec(s: Seq<u8>, f: int) -> Seq<u8> {
    Seq::new(s.len(), |i: int| enhance_at(s, f, i))
}

/// Scale every color sample by `enhancement` thousandths, saturating at 255;
/// alpha is preserved.
pub fn enhance_colors(img: &Raster, enhancement: u32) -> (out: Raster)
    requires
        img.wf(),
    ensures
        out.wf(),
        out.width == img.width,
        out.height == img.height,
        out.data@ == enhance_spec(img.data@, enhancement as int),
{
    let n = img.data.len();
    let mut data: Vec<u8> = Vec::new();
    let mut i: usize = 0;
    while i < n
        invariant
            i <= n,
            n == img.data@.len(),
            img.wf(),
            data@.len() == i,
            forall|j: int| 0 <= j < i ==> data@[j] == enhance_at(img.data@, enhancement as int, j),
        decreases n - i,
    {
        let c = img.data[i];
        if i % 4 == 3 {
            data.push(c);
        } else {
            proof {
                lemma_mul_upper_bound(c as int, 255, enhancement as int, 0xffff_ffff);
            }
            let v = c as u64 * enhancement as u64 / 1000;
            let clamped: u8 = if v > 255 { 255u8 } else { v as u8 };
            assert(clamped == enhance_at(img.data@, enhancement as int, i as int));
            data.push(clamped);
        }
        i = i + 1;
    }
    let out = Raster { width: img.width, height: img.height, data };
    assert(out.data@ =~= enhance_spec(img.data@, enhancement as int));
    out
}

/// The BT.601 luma of a pixel's 8-bit samples, truncated to a byte.
pub open spec fn luma_bt601(r: int, g: int, b: int) -> int {
    (299 * r + 587 * g + 114 * b) / 1000
}

/// Grayscale on one sample: every color channel takes the pixel's luma;
/// alpha samples pass through.
pub open spec fn grayscale_at(s: Seq<u8>, i: int) -> u8 {
    if i % 4 == 3 {
        s[i]
    } else {
        let p = i / 4;
        luma_bt601(s[4 * p] as int, s[4 * p + 1] as int, s[4 * p + 2] as int) as u8
    }
}

pub open spec fn grayscale_spec(s: Seq<u8>) -> Seq<u8> {
    Seq::new(s.len(), |i: int| grayscale_at(s, i))
}

/// Set each pixel's color channels to its BT.601 luma; alpha is preserved.
pub fn to_grayscale(img: &Raster) -> (out: Raster)
    requires
        img.wf(),
    ensures
        out.wf(),
        out.width == img.width,
        out.height == img.height,
        out.data@ == grayscale_spec(img.data@),
{
    let npix = img.pixels();
    let n = img.data.len();
    let mut data: Vec<u8> = Vec::new();
    let mut p: usize = 0;
    while p < npix
        invariant
            p <= npix,
            n == img.data@.len(),
            npix * 4 == n,
            img.wf(),
            data@.len() == 4 * p,
            forall|j: int| 0 <= j < 4 * p ==> data@[j] == grayscale_at(img.data@, j),
        decreases npix - p,
    {
        let base = 4 * p;
        let r = img.data[base];
        let g = img.data[base + 1];
        let b = img.data[base + 2];
        let a = img.data[base + 3];
        let luma = (299 * r as u32 + 587 * g as u32 + 114 * b as u32) / 1000;
        assert(luma <= 255);
        data.push(luma as u8);
        data.push(luma as u8);
        data.push(luma as u8);
        data.push(a);
        proof {
            lemma_sample_split(p as int, 0);
            lemma_sample_split(p as int, 1);
            lemma_sample_split(p as int, 2);
            lemma_sample_split(p as int, 3);
        }
        assert(forall|j: int| 4 * p <= j < 4 * p + 4 ==> data@[j] == grayscale_at(img.data@, j));
        p = p + 1;
    }
    let out = Raster { width: img.width, height: img.height, data };
    assert(out.data@ =~= grayscale_spec(img.data@));
    out
}

} // verus!
