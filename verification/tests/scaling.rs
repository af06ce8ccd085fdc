use integer_scaling::Ratios;
use integer_scaling::Size;
use integer_scaling::calculateRatio;
use integer_scaling::calculateRatios;
use integer_scaling::calculateSize;
use integer_scaling::calculateSizeCorrected;
use integer_scaling::calculateSizeCorrectedPerfectY;

#[test]
fn uniform_ratio_binding_height() {
    // 1080/240 = 4 binds before 1920/320 = 6.
    assert_eq!(calculateRatio(1920, 1080, 320, 240), 4);
}

#[test]
fn uniform_ratio_binding_width() {
    // 1080/320 = 3 binds before 1920/240 = 8.
    assert_eq!(calculateRatio(1080, 1920, 320, 240), 3);
}

#[test]
fn uniform_ratio_area_smaller_than_image_clamps_to_one() {
    assert_eq!(calculateRatio(100, 100, 320, 240), 1);
}

#[test]
fn uniform_size_square_pixels() {
    let size: Size = calculateSize(1920, 1080, 320, 240);
    assert_eq!(size.width, 1280);
    assert_eq!(size.height, 960);
}

#[test]
fn corrected_ratios_square_target_on_wide_image() {
    // The vertical maximum 4 fixes the height; the width is solved to 3,
    // giving a 960x960 output for the square target aspect.
    let r: Ratios = calculateRatios(1920, 1080, 320, 240, 1, 1);
    assert_eq!(r.x, 3);
    assert_eq!(r.y, 4);
}

#[test]
fn corrected_ratios_degenerate_aspect_matches_uniform() {
    // 320 * 3 == 240 * 4: the image is already at the target aspect.
    let uniform: u32 = calculateRatio(1920, 1080, 320, 240);
    let r: Ratios = calculateRatios(1920, 1080, 320, 240, 4, 3);
    assert_eq!(r.x, uniform);
    assert_eq!(r.y, uniform);
}

#[test]
fn corrected_ratios_exact_at_maxima() {
    // Maxima 6 and 4 scale 320x240 to 1920x960, which hits the 2:1 pixel
    // aspect exactly, so no rounding search is needed.
    let r: Ratios = calculateRatios(1920, 960, 320, 240, 2, 1);
    assert_eq!(r.x, 6);
    assert_eq!(r.y, 4);
}

#[test]
fn corrected_ratios_tie_breaks_toward_fixed_axis() {
    // The two roundings have almost equal aspect error; the candidate
    // closer to the fixed vertical ratio 1001 is the ceiling 501.
    let r: Ratios = calculateRatios(50100, 100100, 100, 100, 5, 10);
    assert_eq!(r.x, 501);
    assert_eq!(r.y, 1001);
}

#[test]
fn corrected_ratios_floor_wins_on_smaller_error() {
    let r: Ratios = calculateRatios(200, 1100, 100, 100, 1, 10);
    assert_eq!(r.x, 1);
    assert_eq!(r.y, 11);
}

#[test]
fn corrected_ratios_width_binding_floor() {
    // The horizontal maximum 12 fixes the width; for 10:1 pixels the
    // vertical floor candidate 1 has the smaller aspect error.
    let r: Ratios = calculateRatios(1250, 200, 100, 100, 10, 1);
    assert_eq!(r.x, 12);
    assert_eq!(r.y, 1);
}

#[test]
fn corrected_ratios_width_binding_ceiling() {
    // The horizontal maximum 19 fixes the width; the vertical ceiling
    // candidate 2 comes far closer to the 10:1 target.
    let r: Ratios = calculateRatios(1950, 200, 100, 100, 10, 1);
    assert_eq!(r.x, 19);
    assert_eq!(r.y, 2);
}

#[test]
fn corrected_ratios_portrait_area_solves_height() {
    let r: Ratios = calculateRatios(1080, 1920, 320, 240, 1, 1);
    assert_eq!(r.x, 3);
    assert_eq!(r.y, 4);
}

#[test]
fn corrected_ratios_area_smaller_than_image_clamps_to_one() {
    let r: Ratios = calculateRatios(100, 100, 320, 240, 1, 1);
    assert_eq!(r.x, 1);
    assert_eq!(r.y, 1);
}

#[test]
fn corrected_size_square_target() {
    let size: Size = calculateSizeCorrected(1920, 1080, 320, 240, 1, 1);
    assert_eq!(size.width, 960);
    assert_eq!(size.height, 960);
}

#[test]
fn perfect_y_height_binding() {
    // Derived width 240 * 4/3 = 320; the height axis binds at ratio 4.
    let size: Size = calculateSizeCorrectedPerfectY(1920, 1080, 240, 4, 3);
    assert_eq!(size.width, 1280);
    assert_eq!(size.height, 960);
}

#[test]
fn perfect_y_width_binding() {
    // Derived width 320; the width axis binds: 800/320 = 2.
    let size: Size = calculateSizeCorrectedPerfectY(800, 2000, 240, 4, 3);
    assert_eq!(size.width, 640);
    assert_eq!(size.height, 480);
}

#[test]
fn perfect_y_rounding_past_area_steps_back() {
    // Derived width 4.5 at ratio 2 rounds to 9, one past the area width 8.
    let size: Size = calculateSizeCorrectedPerfectY(8, 100, 3, 3, 2);
    assert_eq!(size.width, 8);
    assert_eq!(size.height, 6);
}

#[test]
fn ratios_are_at_least_one_for_tiny_area() {
    let r: Ratios = calculateRatios(1, 1, 4096, 4096, 7, 5);
    assert!(r.x >= 1);
    assert!(r.y >= 1);
}

#[test]
fn uniform_ratio_monotone_in_area() {
    let small: u32 = calculateRatio(1920, 1080, 320, 240);
    let large: u32 = calculateRatio(3840, 2160, 320, 240);
    assert_eq!(large, 9);
    assert!(small <= large);
}

#[test]
fn corrected_ratios_monotone_in_area() {
    let small: Ratios = calculateRatios(1920, 1080, 320, 240, 1, 1);
    let large: Ratios = calculateRatios(3840, 2160, 320, 240, 1, 1);
    assert_eq!(large.x, 7);
    assert_eq!(large.y, 9);
    assert!(small.x <= large.x);
    assert!(small.y <= large.y);
}

#[test]
fn uniform_scaled_image_fits_area() {
    let ratio: u32 = calculateRatio(1920, 1080, 320, 240);
    assert!(320 * ratio <= 1920);
    assert!(240 * ratio <= 1080);
}

#[test]
fn repeated_calls_agree() {
    let r1: Ratios = calculateRatios(1920, 1080, 320, 240, 64, 49);
    let r2: Ratios = calculateRatios(1920, 1080, 320, 240, 64, 49);
    assert_eq!(r1, r2);
    let s1: Size = calculateSizeCorrectedPerfectY(1920, 1080, 240, 64, 49);
    let s2: Size = calculateSizeCorrectedPerfectY(1920, 1080, 240, 64, 49);
    assert_eq!(s1, s2);
}
