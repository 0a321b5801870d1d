//! The grain stage: independent uniform noise on every color sample,
//! applied in place.

use vstd::prelude::*;
use crate::math::clamp_255;
use crate::raster::{Raster, lemma_sample_split};

verus! {

/// Relies on rand::random_range: a uniform sample within the given
/// non-empty inclusive range, drawn from the thread-local generator.
#[verifier::external_body]
fn sample_noise(lo: i32, hi: i32) -> (r: i32)
    requires
        lo <= hi,
    ensures
        lo <= r <= hi,
{
    rand::random_range(lo..=hi)
}

/// The effective noise amplitude: a negative control draws no noise.
pub open spec fn grain_amp(k: int) -> int {
    if k < 0 { 0 } else { k }
}

/// One sample with its noise added and clamped; alpha samples carry no
/// noise. Sample i of pixel i / 4 takes noise entry 3 * (i / 4) + i % 4.
pub open spec fn grain_applied(s: Seq<u8>, noise: Seq<i32>, i: int) -> u8 {
    if i % 4 == 3 {
        s[i]
    } else {
        clamp_255(s[i] + noise[3 * (i / 4) + i % 4]) as u8
    }
}

pub open spec fn grain_spec(s: Seq<u8>, noise: Seq<i32>) -> Seq<u8> {
    Seq::new(s.len(), |i: int| grain_applied(s, noise, i))
}

/// Every color sample moved by at most k and clamped; alpha untouched.
pub open spec fn grain_bounded(pre: Seq<u8>, out: Seq<u8>, k: int) -> bool {
    &&& out.len() == pre.len()
    &&& forall|i: int| 0 <= i < out.len() && i % 4 == 3 ==> out[i] == pre[i]
    &&& forall|i: int| 0 <= i < out.len() && i % 4 != 3
        ==> clamp_255(pre[i] - k) <= #[trigger] out[i] <= clamp_255(pre[i] + k)
}

/// Add the given per-channel noise to the raster in place: color sample i
/// takes noise entry 3 * (i / 4) + i % 4, clamped to the sample range;
/// alpha samples are untouched.
pub fn add_grain_with_noise(img: &mut Raster, noise: &Vec<i32>)
    requires
        old(img).wf(),
        noise@.len() == old(img).pixel_count() * 3,
    ensures
        final(img).wf(),
        final(img).width == old(img).width,
        final(img).height == old(img).height,
        final(img).data@ == grain_spec(old(img).data@, noise@),
{
    let npix = img.pixels();
    let n = img.data.len();
    let mut out: Vec<u8> = Vec::new();
    let mut p: usize = 0;
    while p < npix
        invariant
            p <= npix,
            img == old(img),
            img.wf(),
            n == img.data@.len(),
            npix * 4 == n,
            noise@.len() == npix * 3,
            out@.len() == 4 * p,
            forall|j: int| 0 <= j < 4 * p ==> out@[j] == grain_applied(img.data@, noise@, j),
        decreases npix - p,
    {
        let base = 4 * p;
        let nbase = 3 * p;
        let mut c: usize = 0;
        while c < 3
            invariant
                c <= 3,
                p < npix,
                base == 4 * p,
                nbase == 3 * p,
                img == old(img),
                img.wf(),
                n == img.data@.len(),
                npix * 4 == n,
                noise@.len() == npix * 3,
                out@.len() == 4 * p + c,
                forall|j: int| 0 <= j < 4 * p ==> out@[j] == grain_applied(img.data@, noise@, j),
                forall|j: int| 4 * p <= j < 4 * p + c
                    ==> out@[j] == grain_applied(img.data@, noise@, j),
            decreases 3 - c,
        {
            let v = img.data[base + c] as i64 + noise[nbase + c] as i64;
            let clamped: u8 = if v < 0 { 0u8 } else if v > 255 { 255u8 } else { v as u8 };
            proof {
                lemma_sample_split(p as int, c as int);
            }
            assert(clamped == grain_applied(img.data@, noise@, (4 * p + c) as int));
            out.push(clamped);
            c = c + 1;
        }
        out.push(img.data[base + 3]);
        proof {
            lemma_sample_split(p as int, 3);
        }
        p = p + 1;
    }
    img.data = out;
    assert(img.data@ =~= grain_spec(old(img).data@, noise@));
}

/// Add uniform noise in -intensity..intensity, drawn independently for
/// every color sample, and clamp; alpha is preserved. A non-positive
/// intensity leaves the raster unchanged.
pub fn add_grain(img: &mut Raster, intensity: i16)
    requires
        old(img).wf(),
    ensures
        final(img).wf(),
        final(img).width == old(img).width,
        final(img).height == old(img).height,
        grain_bounded(old(img).data@, final(img).data@, grain_amp(intensity as int)),
{
    let k: i32 = if intensity < 0 { 0 } else { intensity as i32 };
    let npix = img.pixels();
    let n = img.data.len();
    assert(npix * 3 <= n);
    let total = npix * 3;
    let mut noise: Vec<i32> = Vec::new();
    let mut j: usize = 0;
    while j < total
        invariant
            j <= total,
            noise@.len() == j,
            k == grain_amp(intensity as int),
            forall|m: int| 0 <= m < j ==> -k <= #[trigger] noise@[m] <= k,
        decreases total - j,
    {
        noise.push(sample_noise(-k, k));
        j = j + 1;
    }
    add_grain_with_noise(img, &noise);
    proof {
        let pre = old(img).data@;
        let out = img.data@;
        assert forall|i: int| 0 <= i < out.len() && i % 4 != 3 implies
            clamp_255(pre[i] - k) <= #[trigger] out[i] <= clamp_255(pre[i] + k) by {
            assert(out[i] == grain_applied(pre, noise@, i));
            assert(0 <= 3 * (i / 4) + i % 4 < noise@.len());
        }
    }
}

} // verus!
