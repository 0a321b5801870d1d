use rusty_filters::raster::Raster;
use rusty_filters::pointwise::{adjust_exposure, enhance_colors, to_grayscale};
use rusty_filters::whites::adjust_whites;
use rusty_filters::blacks::adjust_blacks;
use rusty_filters::sharpen::sharpen;
use rusty_filters::glow::add_glow;
use rusty_filters::tint::{adjust_tint, TintAdjustment};
use rusty_filters::grain::{add_grain, add_grain_with_noise};
use rusty_filters::color::{rgb_to_hsl, hsl_to_rgb, get_grayscale};
use rusty_filters::math::{isqrt, fix_pow_exec};

fn raster(width: usize, height: usize, data: Vec<u8>) -> Raster {
    Raster::new(width, height, data).expect("sample count must match dimensions")
}

fn varied_raster(width: usize, height: usize) -> Raster {
    let mut data = Vec::new();
    for i in 0..width * height * 4 {
        data.push(((i * 37 + 11) % 256) as u8);
    }
    raster(width, height, data)
}

#[test]
fn isqrt_exact_values() {
    assert_eq!(isqrt(0), 0);
    assert_eq!(isqrt(1), 1);
    assert_eq!(isqrt(3), 1);
    assert_eq!(isqrt(4), 2);
    assert_eq!(isqrt(392156), 626);
    assert_eq!(isqrt(0x1_0000_0000), 65536);
}

#[test]
fn fix_pow_whole_exponents() {
    // x^1 is exact, x^0 is one, x^2 truncates on the 2^16 scale
    assert_eq!(fix_pow_exec(25700, 1024), 25700);
    assert_eq!(fix_pow_exec(25700, 0), 65536);
    assert_eq!(fix_pow_exec(25700, 2048), 10078);
    // 1^e stays 1 for a fractional exponent
    assert_eq!(fix_pow_exec(65536, 1536), 65536);
}

#[test]
fn exposure_scales_and_clamps() {
    let img = raster(1, 1, vec![100, 200, 50, 77]);
    let out = adjust_exposure(&img, 1500);
    assert_eq!(out.data, vec![150, 255, 75, 77]);
}

#[test]
fn exposure_zero_blacks_out() {
    let img = raster(1, 1, vec![100, 200, 50, 77]);
    let out = adjust_exposure(&img, 0);
    assert_eq!(out.data, vec![0, 0, 0, 77]);
}

#[test]
fn exposure_identity_at_one() {
    let img = varied_raster(3, 2);
    let out = adjust_exposure(&img, 1000);
    assert_eq!(out.data, img.data);
}

#[test]
fn exposure_monotonic_in_factor() {
    let img = varied_raster(2, 2);
    let mut prev = adjust_exposure(&img, 0);
    for e in [250u32, 500, 900, 1000, 1300, 2000] {
        let next = adjust_exposure(&img, e);
        for i in 0..img.data.len() {
            if i % 4 != 3 {
                assert!(prev.data[i] <= next.data[i]);
            }
        }
        prev = next;
    }
}

#[test]
fn enhancement_clamps_upper_bound_only() {
    let img = raster(1, 1, vec![200, 250, 0, 9]);
    let out = enhance_colors(&img, 1050);
    assert_eq!(out.data, vec![210, 255, 0, 9]);
}

#[test]
fn enhancement_identity_at_one() {
    let img = varied_raster(2, 3);
    let out = enhance_colors(&img, 1000);
    assert_eq!(out.data, img.data);
}

#[test]
fn grayscale_equalizes_channels() {
    let img = raster(1, 1, vec![10, 100, 200, 42]);
    let out = to_grayscale(&img);
    assert_eq!(out.data, vec![84, 84, 84, 42]);
}

#[test]
fn grayscale_channels_agree_everywhere() {
    let img = varied_raster(4, 4);
    let out = to_grayscale(&img);
    for p in 0..16 {
        assert_eq!(out.data[4 * p], out.data[4 * p + 1]);
        assert_eq!(out.data[4 * p + 1], out.data[4 * p + 2]);
        assert_eq!(out.data[4 * p + 3], img.data[4 * p + 3]);
    }
}

#[test]
fn whites_identity_at_neutral_control() {
    let img = varied_raster(3, 3);
    let out = adjust_whites(&img, 1000);
    assert_eq!(out.data, img.data);
}

#[test]
fn whites_raises_highlights() {
    let img = raster(1, 1, vec![100, 0, 255, 31]);
    let out = adjust_whites(&img, 2000);
    // 100 + 128 * sqrt(100/255) rounds to 180; 0 stays; 255 saturates
    assert_eq!(out.data, vec![180, 0, 255, 31]);
}

#[test]
fn whites_lowers_highlights_quadratically() {
    let img = raster(1, 1, vec![200, 0, 255, 5]);
    let out = adjust_whites(&img, 0);
    // 200 - 128 * (200/255)^2 rounds to 121; 255 - 128 rounds to 127
    assert_eq!(out.data, vec![121, 0, 127, 5]);
}

#[test]
fn blacks_identity_at_zero() {
    let img = varied_raster(3, 3);
    let out = adjust_blacks(&img, 0);
    assert_eq!(out.data, img.data);
}

#[test]
fn blacks_full_raise_squares_the_curve() {
    let img = raster(1, 1, vec![100, 200, 0, 66]);
    let out = adjust_blacks(&img, 1000);
    assert_eq!(out.data, vec![39, 157, 0, 66]);
}

#[test]
fn blacks_clamps_out_of_range_adjustment() {
    let img = varied_raster(2, 2);
    let capped = adjust_blacks(&img, 1000);
    let over = adjust_blacks(&img, 30000);
    assert_eq!(capped.data, over.data);
}

#[test]
fn sharpen_identity_at_zero() {
    let img = varied_raster(5, 4);
    let out = sharpen(&img, 0);
    assert_eq!(out.data, img.data);
}

#[test]
fn sharpen_convolves_interior() {
    // a bright center over a flat field of 10
    let mut data = vec![0u8; 9 * 4];
    for p in 0..9 {
        let v = if p == 4 { 100 } else { 10 };
        data[4 * p] = v;
        data[4 * p + 1] = v;
        data[4 * p + 2] = v;
        data[4 * p + 3] = 200;
    }
    let img = raster(3, 3, data);
    let out = sharpen(&img, 100);
    // center: (100 * 1400 - 100 * 40) / 1000 = 136
    assert_eq!(out.data[4 * 4], 136);
    assert_eq!(out.data[4 * 4 + 3], 200);
}

#[test]
fn sharpen_keeps_one_pixel_border() {
    let img = varied_raster(5, 5);
    let out = sharpen(&img, 1700);
    for y in 0..5 {
        for x in 0..5 {
            if x == 0 || x == 4 || y == 0 || y == 4 {
                for c in 0..4 {
                    let i = 4 * (y * 5 + x) + c;
                    assert_eq!(out.data[i], img.data[i]);
                }
            }
        }
    }
}

#[test]
fn glow_identity_at_zero() {
    let img = varied_raster(8, 8);
    let out = add_glow(&img, 0);
    assert_eq!(out.data, img.data);
}

#[test]
fn glow_blends_weighted_neighborhood() {
    // a flat field of 100: the 7x7 weight table sums to 8800 thousandths
    let mut data = vec![100u8; 8 * 8 * 4];
    for p in 0..64 {
        data[4 * p + 3] = 255;
    }
    let img = raster(8, 8, data);
    let out = add_glow(&img, 100);
    // interior: (100 * 900 + 880000 * 100 / 1000) / 1000 = 178
    for y in 3..5 {
        for x in 3..5 {
            let base = 4 * (y * 8 + x);
            assert_eq!(out.data[base], 178);
            assert_eq!(out.data[base + 1], 178);
            assert_eq!(out.data[base + 2], 178);
            assert_eq!(out.data[base + 3], 255);
        }
    }
}

#[test]
fn glow_keeps_three_pixel_border() {
    let img = varied_raster(9, 8);
    let out = add_glow(&img, 1000);
    for y in 0..8 {
        for x in 0..9 {
            if x < 3 || x >= 6 || y < 3 || y >= 5 {
                for c in 0..4 {
                    let i = 4 * (y * 9 + x) + c;
                    assert_eq!(out.data[i], img.data[i]);
                }
            }
        }
    }
}

#[test]
fn glow_small_raster_unchanged() {
    let img = varied_raster(6, 6);
    let out = add_glow(&img, 1000);
    assert_eq!(out.data, img.data);
}

#[test]
fn tint_strength_zero_is_identity() {
    let img = varied_raster(4, 3);
    for hue in [0u32, 90000, 180000, 270000, 360000] {
        let t = TintAdjustment { hue, strength: 0, preserve_gray: 500, luminance_mask: 200 };
        let out = adjust_tint(&img, &t);
        assert_eq!(out.data, img.data);
    }
}

#[test]
fn tint_pulls_red_toward_cyan() {
    let img = raster(1, 1, vec![255, 0, 0, 128]);
    let out = adjust_tint(&img, &TintAdjustment::default());
    assert_eq!(out.data, vec![179, 77, 77, 128]);
}

#[test]
fn tint_spares_pure_gray() {
    let mut data = Vec::new();
    for v in [0u8, 64, 128, 200, 255] {
        data.extend_from_slice(&[v, v, v, 255]);
    }
    let img = raster(5, 1, data);
    let out = adjust_tint(&img, &TintAdjustment::default());
    assert_eq!(out.data, img.data);
}

#[test]
fn tint_default_values() {
    let t = TintAdjustment::default();
    assert_eq!(t.hue, 180000);
    assert_eq!(t.strength, 300);
    assert_eq!(t.preserve_gray, 500);
    assert_eq!(t.luminance_mask, 0);
}

#[test]
fn grain_zero_intensity_is_identity() {
    let mut img = varied_raster(4, 4);
    let before = img.data.clone();
    add_grain(&mut img, 0);
    assert_eq!(img.data, before);
}

#[test]
fn grain_negative_intensity_is_identity() {
    let mut img = varied_raster(3, 3);
    let before = img.data.clone();
    add_grain(&mut img, -7);
    assert_eq!(img.data, before);
}

#[test]
fn grain_stays_within_amplitude() {
    let mut img = varied_raster(6, 5);
    let before = img.data.clone();
    add_grain(&mut img, 10);
    for i in 0..before.len() {
        if i % 4 == 3 {
            assert_eq!(img.data[i], before[i]);
        } else {
            let lo = before[i].saturating_sub(10);
            let hi = before[i].saturating_add(10);
            assert!(img.data[i] >= lo && img.data[i] <= hi);
        }
    }
}

#[test]
fn grain_with_noise_adds_and_clamps() {
    let mut img = raster(1, 1, vec![250, 10, 200, 7]);
    let noise = vec![10, -20, 100];
    add_grain_with_noise(&mut img, &noise);
    assert_eq!(img.data, vec![255, 0, 255, 7]);
}

#[test]
fn rgb_to_hsl_primaries() {
    assert_eq!(rgb_to_hsl(255, 0, 0), (0, 1000, 500));
    assert_eq!(rgb_to_hsl(0, 255, 0), (120000, 1000, 500));
    assert_eq!(rgb_to_hsl(0, 0, 255), (240000, 1000, 500));
}

#[test]
fn rgb_to_hsl_gray_has_no_hue() {
    assert_eq!(rgb_to_hsl(128, 128, 128), (0, 0, 501));
    assert_eq!(rgb_to_hsl(0, 0, 0), (0, 0, 0));
    assert_eq!(rgb_to_hsl(255, 255, 255), (0, 0, 1000));
}

#[test]
fn hsl_to_rgb_primaries() {
    assert_eq!(hsl_to_rgb(0, 1000, 500), (1000, 0, 0));
    // the hue grid has thousandth-of-a-degree steps: 120 and 240 degrees
    // land a third of a step off, which leaks four thousandths
    assert_eq!(hsl_to_rgb(120000, 1000, 500), (4, 1000, 0));
    assert_eq!(hsl_to_rgb(240000, 1000, 500), (0, 4, 1000));
}

#[test]
fn hsl_to_rgb_zero_saturation_is_gray() {
    assert_eq!(hsl_to_rgb(77000, 0, 345), (345, 345, 345));
}

#[test]
fn luma_of_thousandths_channels() {
    assert_eq!(get_grayscale(1000, 1000, 1000), 1000);
    assert_eq!(get_grayscale(500, 200, 100), 278);
    assert_eq!(get_grayscale(0, 0, 0), 0);
}

#[test]
fn whites_control_clamps_above_two() {
    let img = varied_raster(3, 2);
    assert_eq!(adjust_whites(&img, 9999).data, adjust_whites(&img, 2000).data);
}

#[test]
fn glow_intensity_clamps_above_one() {
    let img = varied_raster(8, 8);
    assert_eq!(add_glow(&img, 5000).data, add_glow(&img, 1000).data);
}

#[test]
fn tint_strength_clamps_above_one() {
    let img = varied_raster(3, 3);
    let strong = TintAdjustment { hue: 60000, strength: 5000, preserve_gray: 0, luminance_mask: 0 };
    let full = TintAdjustment { hue: 60000, strength: 1000, preserve_gray: 0, luminance_mask: 0 };
    assert_eq!(adjust_tint(&img, &strong).data, adjust_tint(&img, &full).data);
}

#[test]
fn raster_new_checks_sample_count() {
    assert!(Raster::new(2, 2, vec![0; 16]).is_some());
    assert!(Raster::new(2, 2, vec![0; 15]).is_none());
    assert!(Raster::new(0, 0, Vec::new()).is_some());
}
