use viewer_core::edge::run_edge_filter;
use viewer_core::img::LumaImage;

fn luma(width: usize, height: usize, data: Vec<u8>) -> LumaImage {
    assert_eq!(data.len(), width * height);
    LumaImage::new(width, height, data)
}

#[test]
fn zero_image_gives_zero_output() {
    let img = luma(4, 5, vec![0; 20]);
    let out = run_edge_filter(&img);
    assert_eq!(out.width, 4);
    assert_eq!(out.height, 5);
    assert!(out.data.iter().all(|&v| v == 0));
}

#[test]
fn uniform_image_is_zero_in_the_interior() {
    let img = luma(5, 4, vec![7; 20]);
    let out = run_edge_filter(&img);
    // interior cells: all differences cancel
    for y in 1..3usize {
        for x in 1..4usize {
            assert_eq!(out.data[y * 5 + x], 0);
        }
    }
    // at a border the zero padding leaves a nonzero response
    assert!(out.data[0] != 0);
}

#[test]
fn single_bright_center_pixel() {
    // 3x3, one 255 at the center: every neighbor sees a saturated magnitude,
    // the center itself sees none (its opposite neighbors cancel)
    let img = luma(3, 3, vec![0, 0, 0, 0, 255, 0, 0, 0, 0]);
    let out = run_edge_filter(&img);
    // corners: two squared differences of 255 -> sqrt(130050) = 360.6 -> clamp 255
    // edge midpoints: one doubled difference of 510 -> sqrt(260100) = 510 -> clamp 255
    assert_eq!(out.data, vec![255, 255, 255, 255, 0, 255, 255, 255, 255]);
}

#[test]
fn two_by_two_exact_magnitudes() {
    // [[10, 20], [30, 40]] with zero padding at every border
    let img = luma(2, 2, vec![10, 20, 30, 40]);
    let out = run_edge_filter(&img);
    // cell (0,0): gx_row = -40, gx_lower = -40, gy_col = -60, gy_right = -40
    // -> sqrt(8400) = 91.65... -> 92
    assert_eq!(out.data[0], 92);
    // cell (1,0): 20, 30, -80, -30 -> sqrt(8600) = 92.73... -> 93
    assert_eq!(out.data[1], 93);
    // cell (0,1): -80, -20, 20, 20 -> sqrt(7600) = 87.17... -> 87
    assert_eq!(out.data[2], 87);
    // cell (1,1): 60, 10, 40, 10 -> sqrt(5400) = 73.48... -> 73
    assert_eq!(out.data[3], 73);
}

#[test]
fn magnitude_rounds_to_nearest() {
    // a lone pixel of value 3 in a 1x3 row: its neighbor cells see a doubled
    // difference of 6 -> sqrt(36) = 6 exactly; the center sees 0
    let img = luma(3, 1, vec![0, 3, 0]);
    let out = run_edge_filter(&img);
    assert_eq!(out.data, vec![6, 0, 6]);
}

#[test]
fn output_dimensions_match_input() {
    let img = luma(7, 2, (0..14).map(|v| (v * 13) as u8).collect());
    let out = run_edge_filter(&img);
    assert_eq!(out.width, 7);
    assert_eq!(out.height, 2);
    assert_eq!(out.data.len(), 14);
}
