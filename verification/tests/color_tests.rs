use viewer_core::color::{Hsv, Rgb, hsv_to_rgb, rgb_to_hsv};

fn assert_round_trip(r: u64, g: u64, b: u64, den: u64) {
    let p = Rgb { r, g, b, den };
    let h = rgb_to_hsv(&p);
    let q = hsv_to_rgb(&h);
    // exact fraction equality, channel by channel
    assert_eq!(q.r as u128 * den as u128, r as u128 * q.den as u128);
    assert_eq!(q.g as u128 * den as u128, g as u128 * q.den as u128);
    assert_eq!(q.b as u128 * den as u128, b as u128 * q.den as u128);
}

#[test]
fn round_trip_all_sextants() {
    // one pixel per hue sextant, plus boundary orderings
    assert_round_trip(255, 100, 10, 255); // R max, g >= b
    assert_round_trip(255, 10, 100, 255); // R max, b > g
    assert_round_trip(100, 255, 10, 255); // G max, b < r
    assert_round_trip(10, 255, 100, 255); // G max, b >= r
    assert_round_trip(100, 10, 255, 255); // B max, r >= g
    assert_round_trip(10, 100, 255, 255); // B max, r < g
    assert_round_trip(7, 7, 7, 255); // achromatic gray
    assert_round_trip(200, 200, 10, 255); // r == g tie
    assert_round_trip(10, 200, 200, 255); // g == b tie
    assert_round_trip(200, 10, 200, 255); // r == b tie
}

#[test]
fn round_trip_exhaustive_small_denominator() {
    // every pixel over a coarse channel grid
    for r in 0..=6u64 {
        for g in 0..=6u64 {
            for b in 0..=6u64 {
                assert_round_trip(r, g, b, 6);
            }
        }
    }
}

#[test]
fn black_maps_to_zero_without_fault() {
    let h = rgb_to_hsv(&Rgb { r: 0, g: 0, b: 0, den: 255 });
    assert_eq!(h.h_num, 0);
    assert_eq!(h.s_num, 0);
    assert_eq!(h.v_num, 0);
}

#[test]
fn white_has_zero_saturation_full_value() {
    let h = rgb_to_hsv(&Rgb { r: 255, g: 255, b: 255, den: 255 });
    assert_eq!(h.s_num, 0);
    assert_eq!(h.v_num, 255);
    assert_eq!(h.v_den, 255);
}

#[test]
fn yellow_tie_breaks_to_red_branch() {
    // r >= g and r >= b both hold, so the R-max branch decides: hue is 60
    let h = rgb_to_hsv(&Rgb { r: 255, g: 255, b: 0, den: 255 });
    assert_eq!(h.h_num, 60 * h.h_den);
    let h1 = rgb_to_hsv(&Rgb { r: 1, g: 1, b: 0, den: 1 });
    assert_eq!(h1.h_num as u128 * h.h_den as u128, h.h_num as u128 * h1.h_den as u128);
}

#[test]
fn primary_hues_land_on_axis_degrees() {
    let red = rgb_to_hsv(&Rgb { r: 255, g: 0, b: 0, den: 255 });
    assert_eq!(red.h_num, 0);
    let green = rgb_to_hsv(&Rgb { r: 0, g: 255, b: 0, den: 255 });
    assert_eq!(green.h_num, 120 * green.h_den);
    let blue = rgb_to_hsv(&Rgb { r: 0, g: 0, b: 255, den: 255 });
    assert_eq!(blue.h_num, 240 * blue.h_den);
}

#[test]
fn hsv_to_rgb_pure_red() {
    // hue 0, full saturation, full value -> pure red
    let p = hsv_to_rgb(&Hsv { h_num: 0, h_den: 1, s_num: 1, s_den: 1, v_num: 1, v_den: 1 });
    assert_eq!(p.r, p.den);
    assert_eq!(p.g, 0);
    assert_eq!(p.b, 0);
}
