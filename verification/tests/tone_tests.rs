use viewer_core::color::Rgb;
use viewer_core::frac::Frac;
use viewer_core::img::ColorImage;
use viewer_core::tone::apply_tone_window;

fn image_of(pixels: Vec<Rgb>) -> ColorImage {
    let n = pixels.len();
    ColorImage { width: n, height: 1, pixels }
}

fn value_of(p: &Rgb) -> (u64, u64) {
    (p.r.max(p.g).max(p.b), p.den)
}

#[test]
fn full_window_is_identity() {
    let input = vec![
        Rgb { r: 255, g: 100, b: 10, den: 255 },
        Rgb { r: 0, g: 0, b: 0, den: 255 },
        Rgb { r: 10, g: 200, b: 200, den: 255 },
        Rgb { r: 77, g: 77, b: 77, den: 255 },
    ];
    let img = image_of(input.clone());
    let out = apply_tone_window(&img, Frac::zero(), Frac::one());
    for (p, q) in input.iter().zip(out.pixels.iter()) {
        assert_eq!(q.r as u128 * p.den as u128, p.r as u128 * q.den as u128);
        assert_eq!(q.g as u128 * p.den as u128, p.g as u128 * q.den as u128);
        assert_eq!(q.b as u128 * p.den as u128, p.b as u128 * q.den as u128);
    }
}

#[test]
fn raising_the_floor_never_raises_a_value() {
    let input = vec![
        Rgb { r: 255, g: 100, b: 10, den: 255 },
        Rgb { r: 30, g: 60, b: 90, den: 255 },
        Rgb { r: 0, g: 0, b: 0, den: 255 },
        Rgb { r: 250, g: 250, b: 250, den: 255 },
    ];
    let img = image_of(input);
    let ceil = Frac::new(9, 10);
    let low = apply_tone_window(&img, Frac::new(1, 10), ceil);
    let high = apply_tone_window(&img, Frac::new(6, 10), ceil);
    for (a, b) in low.pixels.iter().zip(high.pixels.iter()) {
        let (va, da) = value_of(a);
        let (vb, db) = value_of(b);
        // value at the higher floor <= value at the lower floor
        assert!(vb as u128 * da as u128 <= va as u128 * db as u128);
    }
}

#[test]
fn floor_shifts_a_saturated_red_down() {
    // v = 1, floor 1/5, ceiling 1: new value = min(1, 4/5 + 0) = 4/5,
    // hue and saturation untouched, so the pixel stays pure red
    let img = image_of(vec![Rgb { r: 255, g: 0, b: 0, den: 255 }]);
    let out = apply_tone_window(&img, Frac::new(1, 5), Frac::one());
    let q = &out.pixels[0];
    assert_eq!(q.r as u128 * 5, 4 * q.den as u128);
    assert_eq!(q.g, 0);
    assert_eq!(q.b, 0);
}

#[test]
fn lowered_ceiling_lifts_dark_pixels() {
    // v = 0, ceiling 3/5: new value = min(1, 0 + 2/5) = 2/5: black becomes
    // a gray lifted by the headroom term
    let img = image_of(vec![Rgb { r: 0, g: 0, b: 0, den: 255 }]);
    let out = apply_tone_window(&img, Frac::zero(), Frac::new(3, 5));
    let q = &out.pixels[0];
    assert_eq!(q.r as u128 * 5, 2 * q.den as u128);
    assert_eq!(q.g, q.r);
    assert_eq!(q.b, q.r);
}

#[test]
fn inverted_window_keeps_the_literal_arithmetic() {
    // floor 4/5 above ceiling 1/5: v = 1 gives min(1, 1/5 + 4/5) = 1
    let img = image_of(vec![Rgb { r: 255, g: 255, b: 255, den: 255 }]);
    let out = apply_tone_window(&img, Frac::new(4, 5), Frac::new(1, 5));
    let q = &out.pixels[0];
    assert_eq!(q.r, q.den);
    assert_eq!(q.g, q.den);
    assert_eq!(q.b, q.den);
}
