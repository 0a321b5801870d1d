use rusty_filters::raster::Raster;
use rusty_filters::params::{FilterParameters, Message, MenuItem, Action, handle_message};
use rusty_filters::pipeline::{run_pipeline, apply_filter, FilterError};
use rusty_filters::tint::TintAdjustment;

fn identity_params() -> FilterParameters {
    FilterParameters {
        grain_intensity: 0,
        color_enhancement: 1000,
        glow_intensity: 0,
        sharpness: 0,
        exposure: 1000,
        whites: 1000,
        blacks: 0,
        tint: Vec::new(),
        apply_grayscale: false,
    }
}

fn varied_raster(width: usize, height: usize) -> Raster {
    let mut data = Vec::new();
    for i in 0..width * height * 4 {
        data.push(((i * 53 + 7) % 256) as u8);
    }
    Raster::new(width, height, data).expect("sample count must match dimensions")
}

fn png_bytes(width: u32, height: u32, pixel: [u8; 4]) -> Vec<u8> {
    let mut img = image::RgbaImage::new(width, height);
    for px in img.pixels_mut() {
        *px = image::Rgba(pixel);
    }
    let mut out = std::io::Cursor::new(Vec::new());
    image::DynamicImage::ImageRgba8(img)
        .write_to(&mut out, image::ImageFormat::Png)
        .expect("in-memory PNG encoding");
    out.into_inner()
}

#[test]
fn pipeline_identity_parameters_change_nothing() {
    let img = varied_raster(9, 8);
    let out = run_pipeline(&img, &identity_params());
    assert_eq!(out.width, 9);
    assert_eq!(out.height, 8);
    assert_eq!(out.data, img.data);
}

#[test]
fn pipeline_preserves_dimensions_and_alpha_bounds() {
    let img = varied_raster(10, 7);
    let mut params = FilterParameters::default();
    params.grain_intensity = 10;
    let out = run_pipeline(&img, &params);
    assert_eq!(out.width, img.width);
    assert_eq!(out.height, img.height);
    assert_eq!(out.data.len(), img.data.len());
    for i in 0..out.data.len() {
        if i % 4 == 3 {
            // alpha runs through every stage untouched
            assert_eq!(out.data[i], img.data[i]);
        }
    }
}

#[test]
fn pipeline_grayscale_switch_equalizes_channels() {
    let img = varied_raster(4, 4);
    let mut params = identity_params();
    params.apply_grayscale = true;
    let out = run_pipeline(&img, &params);
    for p in 0..16 {
        assert_eq!(out.data[4 * p], out.data[4 * p + 1]);
        assert_eq!(out.data[4 * p + 1], out.data[4 * p + 2]);
    }
}

#[test]
fn pipeline_handles_an_empty_raster() {
    let img = Raster::new(0, 0, Vec::new()).unwrap();
    let out = run_pipeline(&img, &FilterParameters::default());
    assert_eq!(out.width, 0);
    assert_eq!(out.height, 0);
    assert!(out.data.is_empty());
}

#[test]
fn pipeline_handles_a_single_pixel() {
    let img = Raster::new(1, 1, vec![40, 80, 120, 160]).unwrap();
    let mut params = FilterParameters::default();
    params.grain_intensity = 0;
    let out = run_pipeline(&img, &params);
    // too small for the sharpen and glow kernels: only the pointwise
    // stages apply, and alpha survives them all
    assert_eq!(out.data.len(), 4);
    assert_eq!(out.data[3], 160);
}

#[test]
fn default_parameters_match_session_start() {
    let d = FilterParameters::default();
    assert_eq!(d.grain_intensity, 10);
    assert_eq!(d.color_enhancement, 1050);
    assert_eq!(d.glow_intensity, 50);
    assert_eq!(d.sharpness, 800);
    assert_eq!(d.exposure, 1000);
    assert_eq!(d.blacks, 1000);
    assert_eq!(d.whites, 1000);
    assert_eq!(d.tint.len(), 1);
    assert_eq!(d.tint[0], TintAdjustment::default());
    assert!(!d.apply_grayscale);
}

#[test]
fn end_to_end_solid_color_keeps_shape_and_alpha() {
    let input = png_bytes(4, 4, [90, 140, 180, 255]);
    let params = FilterParameters::default();
    let encoded = apply_filter(&input, &params).expect("a decodable input must process");
    let out = image::load_from_memory(&encoded).expect("the output must be a valid image");
    let rgba = out.to_rgba8();
    assert_eq!(rgba.dimensions(), (4, 4));
    for px in rgba.pixels() {
        assert_eq!(px[3], 255);
    }
}

#[test]
fn empty_input_is_a_decode_error() {
    let params = FilterParameters::default();
    assert_eq!(apply_filter(&Vec::new(), &params), Err(FilterError::DecodeError));
}

#[test]
fn non_image_input_is_a_decode_error() {
    let params = FilterParameters::default();
    let garbage = vec![0x13u8, 0x37, 0x00, 0xfe, 0x01, 0x02, 0x03, 0x04, 0x05];
    assert_eq!(apply_filter(&garbage, &params), Err(FilterError::DecodeError));
}

#[test]
fn decoded_pixels_survive_an_identity_round_trip() {
    let input = png_bytes(5, 3, [12, 200, 33, 210]);
    let encoded = apply_filter(&input, &identity_params()).expect("decodable input");
    let out = image::load_from_memory(&encoded).expect("valid output image").to_rgba8();
    assert_eq!(out.dimensions(), (5, 3));
    for px in out.pixels() {
        assert_eq!(px.0, [12, 200, 33, 210]);
    }
}

#[test]
fn slider_messages_update_their_fields() {
    let mut params = FilterParameters::default();
    assert_eq!(handle_message(&mut params, Message::GrainIntensityChanged(15)), Action::RefreshPreview);
    assert_eq!(params.grain_intensity, 15);
    assert_eq!(handle_message(&mut params, Message::ExposureChanged(1300)), Action::RefreshPreview);
    assert_eq!(params.exposure, 1300);
    assert_eq!(handle_message(&mut params, Message::BlacksChanged(-200)), Action::RefreshPreview);
    assert_eq!(params.blacks, -200);
    assert_eq!(handle_message(&mut params, Message::WhitesChanged(900)), Action::RefreshPreview);
    assert_eq!(params.whites, 900);
    assert_eq!(handle_message(&mut params, Message::SharpnessChanged(100)), Action::RefreshPreview);
    assert_eq!(params.sharpness, 100);
    assert_eq!(handle_message(&mut params, Message::GlowIntensityChanged(70)), Action::RefreshPreview);
    assert_eq!(params.glow_intensity, 70);
    assert_eq!(handle_message(&mut params, Message::ColorEnhancementChanged(1100)), Action::RefreshPreview);
    assert_eq!(params.color_enhancement, 1100);
}

#[test]
fn grayscale_message_toggles_the_switch() {
    let mut params = FilterParameters::default();
    assert!(!params.apply_grayscale);
    assert_eq!(handle_message(&mut params, Message::ApplyGrayscale), Action::RefreshPreview);
    assert!(params.apply_grayscale);
    assert_eq!(handle_message(&mut params, Message::ApplyGrayscale), Action::RefreshPreview);
    assert!(!params.apply_grayscale);
}

#[test]
fn tint_message_replaces_the_pass_list() {
    let mut params = FilterParameters::default();
    let t = TintAdjustment { hue: 40000, strength: 600, preserve_gray: 0, luminance_mask: 100 };
    assert_eq!(handle_message(&mut params, Message::TintChanged(t)), Action::RefreshPreview);
    assert_eq!(params.tint.len(), 1);
    assert_eq!(params.tint[0], t);
}

#[test]
fn control_messages_leave_parameters_alone() {
    let mut params = FilterParameters::default();
    assert_eq!(handle_message(&mut params, Message::SelectImage), Action::PickImage);
    assert_eq!(handle_message(&mut params, Message::ProcessImage), Action::ProcessImage);
    assert_eq!(
        handle_message(&mut params, Message::MenuItemSelected(MenuItem::File)),
        Action::RecordMenuChoice
    );
    assert_eq!(handle_message(&mut params, Message::ToggleImageView), Action::ToggleImageView);
    assert_eq!(params.grain_intensity, 10);
    assert_eq!(params.exposure, 1000);
}
