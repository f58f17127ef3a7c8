use viewer_core::color::Rgb;
use viewer_core::histogram::{build_histogram, normalize_histogram};
use viewer_core::img::ColorImage;

fn gray_pixel(v: u64) -> Rgb {
    Rgb { r: v, g: v, b: v, den: 255 }
}

#[test]
fn counts_total_the_pixel_count() {
    let pixels: Vec<Rgb> = (0..12u64).map(|i| gray_pixel((i * 21) % 256)).collect();
    let img = ColorImage { width: 4, height: 3, pixels };
    let counts = build_histogram(&img, 10);
    assert_eq!(counts.len(), 10);
    let total: usize = counts.iter().sum();
    assert_eq!(total, 4 * 3);
}

#[test]
fn bin_placement_uses_the_narrow_top_bin() {
    // bin = floor(value * 9) with value = max / 255: the full value 1 falls
    // exactly on the last bin's boundary
    let pixels = vec![
        gray_pixel(0),   // bin 0
        gray_pixel(28),  // 28*9/255 = 0
        gray_pixel(29),  // 29*9/255 = 1
        gray_pixel(85),  // 85*9/255 = 3 exactly
        gray_pixel(127), // 127*9/255 = 4
        gray_pixel(255), // bin 9
    ];
    let img = ColorImage { width: 6, height: 1, pixels };
    let counts = build_histogram(&img, 10);
    assert_eq!(counts, vec![2, 1, 0, 1, 1, 0, 0, 0, 0, 1]);
}

#[test]
fn value_is_the_channel_maximum() {
    // a saturated red pixel has full value, so it lands in the top bin
    let img = ColorImage { width: 1, height: 1, pixels: vec![Rgb { r: 255, g: 0, b: 0, den: 255 }] };
    let counts = build_histogram(&img, 10);
    assert_eq!(counts[9], 1);
}

#[test]
fn empty_image_gives_zero_counts_and_zero_normalization() {
    let img = ColorImage { width: 0, height: 0, pixels: vec![] };
    let counts = build_histogram(&img, 10);
    assert!(counts.iter().all(|&c| c == 0));
    let scaled = normalize_histogram(&counts);
    assert_eq!(scaled.len(), 10);
    for f in &scaled {
        assert_eq!(f.num, 0);
        assert_eq!(f.den, 1);
    }
}

#[test]
fn normalization_pads_the_peak_by_a_fifth() {
    let counts: Vec<usize> = vec![10, 5, 0];
    let scaled = normalize_histogram(&counts);
    // padded peak: 10 + 10/5 = 12
    assert_eq!(scaled[0].num, 10);
    assert_eq!(scaled[0].den, 12);
    assert_eq!(scaled[1].num, 5);
    assert_eq!(scaled[1].den, 12);
    assert_eq!(scaled[2].num, 0);
    assert_eq!(scaled[2].den, 12);
    // every normalized bin stays within [0, 1]
    for f in &scaled {
        assert!(f.num <= f.den);
    }
}

#[test]
fn small_peak_rounds_padding_down() {
    // integer padding: 4 + 4/5 = 4, so the peak bin normalizes to exactly 1
    let counts: Vec<usize> = vec![4, 1];
    let scaled = normalize_histogram(&counts);
    assert_eq!(scaled[0].num, 4);
    assert_eq!(scaled[0].den, 4);
}
