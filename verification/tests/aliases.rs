use integer_scaling::Ratios;
use integer_scaling::Size;
use integer_scaling::calculate_ratio;
use integer_scaling::calculate_ratios;
use integer_scaling::calculate_size;
use integer_scaling::calculate_size_corrected;
use integer_scaling::calculate_size_corrected_perfect_y;

#[test]
fn snake_case_ratio_matches_camel_case() {
    assert_eq!(calculate_ratio(1920, 1080, 320, 240),
        integer_scaling::calculateRatio(1920, 1080, 320, 240));
}

#[test]
fn snake_case_ratio_concrete() {
    assert_eq!(calculate_ratio(1920, 1080, 320, 240), 4);
}

#[test]
fn snake_case_ratios_concrete() {
    let r: Ratios = calculate_ratios(1920, 1080, 320, 240, 1, 1);
    assert_eq!(r.x, 3);
    assert_eq!(r.y, 4);
}

#[test]
fn snake_case_size_concrete() {
    let size: Size = calculate_size(1920, 1080, 320, 240);
    assert_eq!(size.width, 1280);
    assert_eq!(size.height, 960);
}

#[test]
fn snake_case_size_corrected_concrete() {
    let size: Size = calculate_size_corrected(1920, 1080, 320, 240, 1, 1);
    assert_eq!(size.width, 960);
    assert_eq!(size.height, 960);
}

#[test]
fn snake_case_perfect_y_concrete() {
    let size: Size = calculate_size_corrected_perfect_y(1920, 1080, 240, 4, 3);
    assert_eq!(size.width, 1280);
    assert_eq!(size.height, 960);
}
