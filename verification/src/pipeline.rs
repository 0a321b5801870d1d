//! The pipeline orchestrator: decode, run the stages in their fixed order,
//! encode.

use vstd::prelude::*;
use crate::raster::Raster;
use crate::params::FilterParameters;
use crate::pointwise::{adjust_exposure, enhance_colors, to_grayscale, exposure_spec, enhance_spec, grayscale_spec};
use crate::whites::{adjust_whites, whites_spec};
use crate::blacks::{adjust_blacks, blacks_spec};
use crate::sharpen::{sharpen, sharpen_spec};
use crate::glow::{add_glow, glow_spec};
use crate::tint::{adjust_tint, tint_spec, TintAdjustment};
use crate::grain::{add_grain, grain_amp, grain_bounded};

verus! {

/// Why an invocation ended without output: the input could not be decoded,
/// or the result could not be encoded.
#[derive(Clone, Copy, Debug, PartialEq, Eq, Structural)]
pub enum FilterError {
    DecodeError,
    EncodeError,
}

/// The RGBA8 raster decoded from the bytes, as width, height and samples,
/// or nothing when they decode to no image. Decoding depends on the bytes
/// alone.
pub uninterp spec fn decoded_of(bytes: Seq<u8>) -> Option<(int, int, Seq<u8>)>;

/// The PNG encoding of a raster given as width, height and samples, or
/// nothing when the encoder refuses it. Encoding depends on these three
/// values alone.
pub uninterp spec fn png_of(width: int, height: int, samples: Seq<u8>) -> Option<Seq<u8>>;

/// Relies on image::load_from_memory and DynamicImage::to_rgba8 to decode
/// the bytes into an RGBA8 buffer with 32-bit dimensions; the samples are
/// handed to Raster::new, which accepts them only when their count matches
/// the dimensions.
#[verifier::external_body]
fn decode_rgba(bytes: &Vec<u8>) -> (r: Option<Raster>)
    ensures
        r is Some <==> decoded_of(bytes@) is Some,
        r matches Some(img) ==> img.wf() && img.width <= 0xffff_ffff && img.height
            <= 0xffff_ffff,
        r matches Some(img) ==> decoded_of(bytes@)
            == Some((img.width as int, img.height as int, img.data@)),
{
    match image::load_from_memory(bytes.as_slice()) {
        Ok(decoded) => {
            let rgba = decoded.to_rgba8();
            let (w, h) = rgba.dimensions();
            Raster::new(w as usize, h as usize, rgba.into_raw())
        },
        Err(_) => None,
    }
}

/// Relies on image's PNG encoder, reached through DynamicImage::write_to
/// into an in-memory buffer; RgbaImage::from_raw accepts the buffer because
/// its length matches the dimensions.
#[verifier::external_body]
fn encode_png(img: Raster) -> (r: Option<Vec<u8>>)
    requires
        img.wf(),
        img.width <= 0xffff_ffff,
        img.height <= 0xffff_ffff,
    ensures
        r is Some <==> png_of(img.width as int, img.height as int, img.data@) is Some,
        r matches Some(b) ==> png_of(img.width as int, img.height as int, img.data@)
            == Some(b@),
{
    let buffer = image::RgbaImage::from_raw(img.width as u32, img.height as u32, img.data)?;
    let mut out = std::io::Cursor::new(Vec::new());
    match image::DynamicImage::ImageRgba8(buffer).write_to(&mut out, image::ImageFormat::Png) {
        Ok(()) => Some(out.into_inner()),
        Err(_) => None,
    }
}

/// The tint passes applied in list order.
pub open spec fn tint_list_spec(s: Seq<u8>, ts: Seq<TintAdjustment>) -> Seq<u8>
    decreases ts.len(),
{
    if ts.len() == 0 {
        s
    } else {
        tint_list_spec(tint_spec(s, ts[0]), ts.drop_first())
    }
}

/// The deterministic part of the pipeline: every stage in its fixed order,
/// short of the final grain pass.
pub open spec fn pre_grain_spec(s: Seq<u8>, w: int, h: int, p: FilterParameters) -> Seq<u8> {
    let s1 = exposure_spec(s, p.exposure as int);
    let s2 = whites_spec(s1, p.whites as int);
    let s3 = blacks_spec(s2, p.blacks as int);
    let s4 = if p.apply_grayscale { grayscale_spec(s3) } else { s3 };
    let s5 = enhance_spec(s4, p.color_enhancement as int);
    let s6 = sharpen_spec(s5, w, h, p.sharpness as int);
    let s7 = glow_spec(s6, w, h, p.glow_intensity as int);
    tint_list_spec(s7, p.tint@)
}

/// Run the stages in their fixed order: exposure, whites, blacks, grayscale
/// (when enabled), color enhancement, sharpen, glow, the tint passes in
/// list order, and grain last. The result equals the deterministic stages'
/// output with every color sample moved by at most the grain amplitude.
pub fn run_pipeline(img: &Raster, params: &FilterParameters) -> (out: Raster)
    requires
        img.wf(),
    ensures
        out.wf(),
        out.width == img.width,
        out.height == img.height,
        grain_bounded(
            pre_grain_spec(img.data@, img.width as int, img.height as int, *params),
            out.data@,
            grain_amp(params.grain_intensity as int),
        ),
{
    let ghost s0 = img.data@;
    let ghost w = img.width as int;
    let ghost h = img.height as int;

    let mut cur = adjust_exposure(img, params.exposure);
    cur = adjust_whites(&cur, params.whites);
    cur = adjust_blacks(&cur, params.blacks);
    if params.apply_grayscale {
        cur = to_grayscale(&cur);
    }
    cur = enhance_colors(&cur, params.color_enhancement);
    cur = sharpen(&cur, params.sharpness);
    cur = add_glow(&cur, params.glow_intensity);
    let ghost s7 = cur.data@;
    assert(tint_list_spec(s7, params.tint@.skip(0)) == tint_list_spec(s7, params.tint@)) by {
        assert(params.tint@.skip(0) =~= params.tint@);
    }

    let tn = params.tint.len();
    let mut ti: usize = 0;
    while ti < tn
        invariant
            ti <= tn,
            tn == params.tint@.len(),
            cur.wf(),
            cur.width == img.width,
            cur.height == img.height,
            w == img.width as int,
            h == img.height as int,
            tint_list_spec(cur.data@, params.tint@.skip(ti as int))
                == tint_list_spec(s7, params.tint@),
        decreases tn - ti,
    {
        let ghost before = cur.data@;
        cur = adjust_tint(&cur, &params.tint[ti]);
        proof {
            let ts = params.tint@.skip(ti as int);
            assert(ts[0] == params.tint@[ti as int]);
            assert(ts.drop_first() =~= params.tint@.skip(ti as int + 1));
            assert(tint_list_spec(before, ts)
                == tint_list_spec(tint_spec(before, ts[0]), ts.drop_first()));
        }
        ti = ti + 1;
    }
    assert(cur.data@ == tint_list_spec(s7, params.tint@)) by {
        assert(params.tint@.skip(tn as int).len() == 0);
    }
    assert(cur.data@ == pre_grain_spec(s0, w, h, *params));

    add_grain(&mut cur, params.grain_intensity);
    cur
}

/// The bytes are the PNG encoding of a pipeline result for the decoded
/// input: some raster within the grain envelope of the deterministic
/// stages' output that the encoder accepted.
pub open spec fn valid_output(input: Seq<u8>, p: FilterParameters, output: Seq<u8>) -> bool {
    match decoded_of(input) {
        Some(d) => exists|samples: Seq<u8>|
            grain_bounded(
                pre_grain_spec(d.2, d.0, d.1, p),
                samples,
                grain_amp(p.grain_intensity as int),
            ) && #[trigger] png_of(d.0, d.1, samples) == Some(output),
        None => false,
    }
}

/// The encoder refused a pipeline result for the decoded input: some raster
/// within the grain envelope of the deterministic stages' output.
pub open spec fn encode_refusal(input: Seq<u8>, p: FilterParameters) -> bool {
    match decoded_of(input) {
        Some(d) => exists|samples: Seq<u8>|
            grain_bounded(
                pre_grain_spec(d.2, d.0, d.1, p),
                samples,
                grain_amp(p.grain_intensity as int),
            ) && #[trigger] png_of(d.0, d.1, samples) is None,
        None => false,
    }
}

/// Decode the input bytes, run the pipeline, and encode the result — always
/// as PNG, whatever container the input came in. DecodeError comes exactly
/// on an empty or undecodable input; EncodeError only when the encoder
/// refused an actual pipeline result; Ok carries an actual pipeline
/// result's encoding.
pub fn apply_filter(input: &Vec<u8>, params: &FilterParameters) -> (r: Result<
    Vec<u8>,
    FilterError,
>)
    ensures
        (r matches Err(e) && e == FilterError::DecodeError)
            <==> (input@.len() == 0 || decoded_of(input@) is None),
        r matches Ok(b) ==> valid_output(input@, *params, b@),
        (r matches Err(e) && e == FilterError::EncodeError) ==> encode_refusal(input@, *params),
{
    if input.len() == 0 {
        return Err(FilterError::DecodeError);
    }
    let img = match decode_rgba(input) {
        Some(img) => img,
        None => {
            return Err(FilterError::DecodeError);
        },
    };
    let ghost dw = img.width as int;
    let ghost dh = img.height as int;
    let ghost ds = img.data@;
    assert(decoded_of(input@) == Some((dw, dh, ds)));
    let out = run_pipeline(&img, params);
    let ghost envelope_held = grain_bounded(
        pre_grain_spec(ds, dw, dh, *params),
        out.data@,
        grain_amp(params.grain_intensity as int),
    );
    let ghost osamples = out.data@;
    assert(out.width as int == dw && out.height as int == dh);
    match encode_png(out) {
        Some(bytes) => {
            assert(png_of(dw, dh, osamples) == Some(bytes@));
            assert(valid_output(input@, *params, bytes@));
            Ok(bytes)
        },
        None => {
            assert(png_of(dw, dh, osamples) is None);
            assert(encode_refusal(input@, *params));
            Err(FilterError::EncodeError)
        },
    }
}

} // verus!
