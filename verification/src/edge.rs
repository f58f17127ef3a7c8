use vstd::prelude::*;

verus! {

use crate::img::LumaImage;

/// The six directional differences at (x, y), squared and summed, with
/// out-of-bounds neighbors read as 0. This is the six-term decomposition
/// (two horizontal-pair rows, the doubled center row, two vertical-pair
/// columns, the doubled center column), not the canonical two-kernel Sobel.
pub open spec fn grad_sq(img: LumaImage, x: int, y: int) -> int {
    let gx_row = 2 * img.at(x - 1, y) - 2 * img.at(x + 1, y);
    let gx_upper = img.at(x - 1, y - 1) - img.at(x + 1, y - 1);
    let gx_lower = img.at(x - 1, y + 1) - img.at(x + 1, y + 1);
    let gy_col = 2 * img.at(x, y - 1) - 2 * img.at(x, y + 1);
    let gy_left = img.at(x - 1, y - 1) - img.at(x - 1, y + 1);
    let gy_right = img.at(x + 1, y - 1) - img.at(x + 1, y + 1);
    gx_row * gx_row + gx_upper * gx_upper + gx_lower * gx_lower + gy_col * gy_col + gy_left
        * gy_left + gy_right * gy_right
}

/// m is the square root of s rounded to the nearest integer (a tie is
/// impossible: 4*s is even while every (2m+1)^2 is odd) and clamped to 255.
/// The relation determines m uniquely; see `lemma_mag_unique`.
pub open spec fn mag_rel(s: int, m: int) -> bool {
    if 4 * s >= 509 * 509 {
        m == 255
    } else {
        (m == 0 || (2 * m - 1) * (2 * m - 1) < 4 * s) && 4 * s < (2 * m + 1) * (2 * m + 1)
    }
}

/// The magnitude relation is a function: one sum of squares admits exactly
/// one rounded, clamped magnitude.
pub proof fn lemma_mag_unique(s: int, m1: int, m2: int)
    requires
        0 <= s,
        mag_rel(s, m1),
        mag_rel(s, m2),
    ensures
        m1 == m2,
{
    if 4 * s < 509 * 509 {
        assert(m1 == m2) by (nonlinear_arith)
            requires
                0 <= s,
                (m1 == 0 || (2 * m1 - 1) * (2 * m1 - 1) < 4 * s) && 4 * s < (2 * m1 + 1) * (2 * m1
                    + 1),
                (m2 == 0 || (2 * m2 - 1) * (2 * m2 - 1) < 4 * s) && 4 * s < (2 * m2 + 1) * (2 * m2
                    + 1),
        ;
    }
}

/// Rounded, clamped square root of a sum of squared differences.
fn mag_from_sq(s: u32) -> (m: u8)
    requires
        s <= 1_560_600,
    ensures
        mag_rel(s as int, m as int),
{
    let s4: u32 = 4 * s;
    let mut m: u32 = 0;
    while m < 255
        invariant
            s4 == 4 * s,
            m <= 255,
            m == 0 || (2 * m - 1) * (2 * m - 1) < s4,
        ensures
            m <= 255,
            m == 0 || (2 * m - 1) * (2 * m - 1) < s4,
            m == 255 || s4 <= (2 * m + 1) * (2 * m + 1),
        decreases 255 - m,
    {
        let t: u32 = 2 * m + 1;
        proof {
            assert((t as int) * (t as int) <= 259_081) by (nonlinear_arith)
                requires
                    (t as int) <= 509,
            ;
        }
        let tt: u32 = t * t;
        if s4 <= tt {
            break ;
        }
        m = m + 1;
    }
    if m < 255 {
        // the loop stopped because 4*s <= (2m+1)^2; parity rules out equality
        proof {
            assert((2 * m + 1) * (2 * m + 1) == 4 * ((m as int) * (m as int) + m) + 1)
                by (nonlinear_arith);
            assert(4 * s != (2 * m + 1) * (2 * m + 1));
            assert((2 * m + 1) * (2 * m + 1) <= 509 * 509) by (nonlinear_arith)
                requires
                    0 <= m < 255int,
            ;
        }
    }
    m as u8
}

/// Gradient-magnitude edge detection with zero padding: every output sample
/// is the rounded, clamped Euclidean magnitude of the six directional
/// differences at its cell. The input is never written; the output is a
/// fresh image of the same dimensions.
pub fn run_edge_filter(img: &LumaImage) -> (out: LumaImage)
    requires
        img.wf(),
    ensures
        out.wf(),
        out.width == img.width,
        out.height == img.height,
        forall|x: int, y: int|
            0 <= x < img.width && 0 <= y < img.height ==> mag_rel(
                grad_sq(*img, x, y),
                #[trigger] out.data[y * img.width + x] as int,
            ),
{
    let width = img.width;
    let height = img.height;
    let mut data: Vec<u8> = Vec::new();
    let mut y: usize = 0;
    while y < height
        invariant
            img.wf(),
            width == img.width,
            height == img.height,
            y <= height,
            data.len() == y * width,
            forall|xx: int, yy: int|
                0 <= xx < width && 0 <= yy < y ==> mag_rel(
                    grad_sq(*img, xx, yy),
                    #[trigger] data[yy * width + xx] as int,
                ),
        decreases height - y,
    {
        let mut x: usize = 0;
        while x < width
            invariant
                img.wf(),
                width == img.width,
                height == img.height,
                y < height,
                x <= width,
                data.len() == y * width + x,
                forall|xx: int, yy: int|
                    0 <= xx < width && 0 <= yy < y ==> mag_rel(
                        grad_sq(*img, xx, yy),
                        #[trigger] data[yy * width + xx] as int,
                    ),
                forall|xx: int|
                    0 <= xx < x ==> mag_rel(
                        grad_sq(*img, xx, y as int),
                        #[trigger] data[y * width + xx] as int,
                    ),
            decreases width - x,
        {
            let xi = x as i64;
            let yi = y as i64;
            let gx_row: i32 = 2 * (img.get(xi - 1, yi) as i32) - 2 * (img.get(xi + 1, yi) as i32);
            let gx_upper: i32 = img.get(xi - 1, yi - 1) as i32 - img.get(xi + 1, yi - 1) as i32;
            let gx_lower: i32 = img.get(xi - 1, yi + 1) as i32 - img.get(xi + 1, yi + 1) as i32;
            let gy_col: i32 = 2 * (img.get(xi, yi - 1) as i32) - 2 * (img.get(xi, yi + 1) as i32);
            let gy_left: i32 = img.get(xi - 1, yi - 1) as i32 - img.get(xi - 1, yi + 1) as i32;
            let gy_right: i32 = img.get(xi + 1, yi - 1) as i32 - img.get(xi + 1, yi + 1) as i32;
            proof {
                lemma_sq_bound(gx_row as int);
                lemma_sq_bound(gx_upper as int);
                lemma_sq_bound(gx_lower as int);
                lemma_sq_bound(gy_col as int);
                lemma_sq_bound(gy_left as int);
                lemma_sq_bound(gy_right as int);
            }
            let s: i32 = gx_row * gx_row + gx_upper * gx_upper + gx_lower * gx_lower + gy_col
                * gy_col + gy_left * gy_left + gy_right * gy_right;
            let m = mag_from_sq(s as u32);
            data.push(m);
            proof {
                assert(data.len() == y * width + x + 1);
                assert forall|xx: int, yy: int| 0 <= xx < width && 0 <= yy < y implies 0 <= #[trigger] (yy
                    * width + xx) && yy * width + xx < y * width by {
                    lemma_row_index(yy, xx, y as int, width as int);
                }
            }
            x = x + 1;
        }
        proof {
            assert((y + 1) * width == y * width + width) by (nonlinear_arith);
        }
        y = y + 1;
    }
    proof {
        assert(data.len() == height * width);
        assert(height * width == width * height) by (nonlinear_arith);
    }
    LumaImage { width, height, data }
}

/// Row-major index arithmetic: a cell of an earlier row lies below the
/// current row's first index.
proof fn lemma_row_index(yy: int, xx: int, y: int, w: int) by (nonlinear_arith)
    requires
        0 <= xx < w,
        0 <= yy < y,
    ensures
        0 <= yy * w + xx < y * w,
{
}

/// On an image whose samples all equal v, an in-bounds read gives v and an
/// out-of-bounds read gives the zero padding.
proof fn lemma_at_uniform(img: LumaImage, v: u8, x: int, y: int)
    requires
        img.wf(),
        forall|i: int| 0 <= i < img.data.len() ==> img.data[i] == v,
    ensures
        img.at(x, y) == if 0 <= x < img.width && 0 <= y < img.height {
            v as int
        } else {
            0
        },
{
    if 0 <= x < img.width && 0 <= y < img.height {
        lemma_row_index(y, x, img.height as int, img.width as int);
        assert((img.height as int) * (img.width as int) == (img.width as int) * (
        img.height as int)) by (nonlinear_arith);
    }
}

/// A magnitude that stands in the relation to a zero gradient is zero.
pub proof fn lemma_mag_zero(m: int)
    requires
        mag_rel(0, m),
    ensures
        m == 0,
{
    assert((2 * 0int + 1) * (2 * 0int + 1) == 1) by (nonlinear_arith);
    assert(mag_rel(0, 0));
    lemma_mag_unique(0, m, 0);
}

/// Law: a constant-luminance image has zero gradient at every interior cell
/// (every directional difference cancels), so the edge filter's response
/// there is zero. At border cells the zero padding leaves a nonzero
/// response unless the constant itself is zero; see `lemma_edge_zero_image`.
pub proof fn lemma_edge_uniform_interior(img: LumaImage, out: LumaImage, v: u8, x: int, y: int)
    requires
        img.wf(),
        forall|i: int| 0 <= i < img.data.len() ==> img.data[i] == v,
        out.width == img.width,
        out.height == img.height,
        forall|xx: int, yy: int|
            0 <= xx < img.width && 0 <= yy < img.height ==> mag_rel(
                grad_sq(img, xx, yy),
                #[trigger] out.data[yy * img.width + xx] as int,
            ),
        1 <= x && x + 1 < img.width,
        1 <= y && y + 1 < img.height,
    ensures
        grad_sq(img, x, y) == 0,
        out.data[y * img.width + x] as int == 0,
{
    lemma_at_uniform(img, v, x - 1, y - 1);
    lemma_at_uniform(img, v, x, y - 1);
    lemma_at_uniform(img, v, x + 1, y - 1);
    lemma_at_uniform(img, v, x - 1, y);
    lemma_at_uniform(img, v, x + 1, y);
    lemma_at_uniform(img, v, x - 1, y + 1);
    lemma_at_uniform(img, v, x, y + 1);
    lemma_at_uniform(img, v, x + 1, y + 1);
    assert(grad_sq(img, x, y) == 0);
    lemma_mag_zero(out.data[y * img.width + x] as int);
}

/// Law: on an all-zero image the edge filter's output is zero at every cell,
/// border cells included, since the zero padding agrees with the samples.
pub proof fn lemma_edge_zero_image(img: LumaImage, out: LumaImage, x: int, y: int)
    requires
        img.wf(),
        forall|i: int| 0 <= i < img.data.len() ==> img.data[i] == 0,
        out.width == img.width,
        out.height == img.height,
        forall|xx: int, yy: int|
            0 <= xx < img.width && 0 <= yy < img.height ==> mag_rel(
                grad_sq(img, xx, yy),
                #[trigger] out.data[yy * img.width + xx] as int,
            ),
        0 <= x < img.width,
        0 <= y < img.height,
    ensures
        grad_sq(img, x, y) == 0,
        out.data[y * img.width + x] as int == 0,
{
    lemma_at_uniform(img, 0, x - 1, y - 1);
    lemma_at_uniform(img, 0, x, y - 1);
    lemma_at_uniform(img, 0, x + 1, y - 1);
    lemma_at_uniform(img, 0, x - 1, y);
    lemma_at_uniform(img, 0, x + 1, y);
    lemma_at_uniform(img, 0, x - 1, y + 1);
    lemma_at_uniform(img, 0, x, y + 1);
    lemma_at_uniform(img, 0, x + 1, y + 1);
    assert(img.at(x - 1, y - 1) == 0);
    assert(img.at(x, y - 1) == 0);
    assert(img.at(x + 1, y - 1) == 0);
    assert(img.at(x - 1, y) == 0);
    assert(img.at(x + 1, y) == 0);
    assert(img.at(x - 1, y + 1) == 0);
    assert(img.at(x, y + 1) == 0);
    assert(img.at(x + 1, y + 1) == 0);
    assert(grad_sq(img, x, y) == 0);
    lemma_mag_zero(out.data[y * img.width + x] as int);
}

/// A directional difference of byte samples squares to at most 510^2.
proof fn lemma_sq_bound(d: int) by (nonlinear_arith)
    requires
        -510 <= d <= 510,
    ensures
        0 <= d * d <= 260_100,
{
}

} // verus!
