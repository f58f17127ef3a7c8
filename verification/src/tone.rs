use vstd::prelude::*;

verus! {

use crate::color::{
    Hsv,
    HsvView,
    Rgb,
    RgbView,
    hsv_to_rgb,
    hsv_wf,
    lemma_mul_le,
    rgb_to_hsv,
    rgb_wf,
    spec_hsv_to_rgb,
    spec_rgb_to_hsv,
};
use crate::frac::{Frac, frac_eq, frac_le};
use crate::img::ColorImage;

/// The remapped Value channel as an exact fraction over the common
/// denominator v_den * fl_den * ce_den:
/// new_v = min(1, max(0, v - floor) + (1 - ceil)).
/// This is a linear remap, not a clamp to [floor, ceil]; a floor above the
/// ceiling is accepted and keeps this exact arithmetic meaning.
pub open spec fn spec_tone_value(
    v_num: int,
    v_den: int,
    fl_num: int,
    fl_den: int,
    ce_num: int,
    ce_den: int,
) -> (int, int) {
    let lifted = if v_num * fl_den - fl_num * v_den >= 0 {
        v_num * fl_den - fl_num * v_den
    } else {
        0
    };
    let num = lifted * ce_den + (ce_den - ce_num) * (v_den * fl_den);
    let den = (v_den * fl_den) * ce_den;
    if num <= den {
        (num, den)
    } else {
        (den, den)
    }
}

/// One pixel through the tone window: to HSV, remap Value, back to RGB.
/// Hue and saturation pass through untouched.
pub open spec fn spec_tone_pixel(
    p: RgbView,
    fl_num: int,
    fl_den: int,
    ce_num: int,
    ce_den: int,
) -> RgbView {
    let h = spec_rgb_to_hsv(p);
    let nv = spec_tone_value(h.v_num, h.v_den, fl_num, fl_den, ce_num, ce_den);
    spec_hsv_to_rgb(
        HsvView {
            h_num: h.h_num,
            h_den: h.h_den,
            s_num: h.s_num,
            s_den: h.s_den,
            v_num: nv.0,
            v_den: nv.1,
        },
    )
}

/// Remap the Value channel of every pixel by the floor/ceiling window,
/// leaving hue and saturation of every pixel exactly unchanged. A fresh
/// image is returned; the input is not touched.
pub fn apply_tone_window(img: &ColorImage, floor: Frac, ceil: Frac) -> (out: ColorImage)
    requires
        img.wf(),
        floor.wf(),
        ceil.wf(),
        floor.den <= 0xFFFF,
        ceil.den <= 0xFFFF,
        forall|i: int| 0 <= i < img.pixels.len() ==> (#[trigger] img.pixels[i]).den <= 255,
    ensures
        out.wf(),
        out.width == img.width,
        out.height == img.height,
        out.pixels.len() == img.pixels.len(),
        forall|i: int|
            0 <= i < img.pixels.len() ==> (#[trigger] out.pixels[i])@ == spec_tone_pixel(
                img.pixels[i]@,
                floor.num as int,
                floor.den as int,
                ceil.num as int,
                ceil.den as int,
            ),
{
    let mut pixels: Vec<Rgb> = Vec::new();
    let n = img.pixels.len();
    let mut i: usize = 0;
    while i < n
        invariant
            img.wf(),
            floor.wf(),
            ceil.wf(),
            floor.den <= 0xFFFF,
            ceil.den <= 0xFFFF,
            forall|j: int| 0 <= j < img.pixels.len() ==> (#[trigger] img.pixels[j]).den <= 255,
            n == img.pixels.len(),
            i <= n,
            pixels.len() == i,
            forall|j: int|
                0 <= j < i ==> (#[trigger] pixels[j])@ == spec_tone_pixel(
                    img.pixels[j]@,
                    floor.num as int,
                    floor.den as int,
                    ceil.num as int,
                    ceil.den as int,
                ) && rgb_wf(pixels[j]@),
        decreases n - i,
    {
        let p = img.pixels[i];
        proof {
            assert(rgb_wf(img.pixels[i as int]@));
            assert(img.pixels[i as int].den <= 255);
        }
        let h = rgb_to_hsv(&p);
        let vn = h.v_num;
        let vd = h.v_den;
        proof {
            lemma_mul_le(vn as int, floor.den as int, 255, 0xFFFF);
            lemma_mul_le(floor.num as int, vd as int, 0xFFFF, 255);
            lemma_mul_le(vd as int, floor.den as int, 255, 0xFFFF);
            lemma_mul_le(1, 1, vd as int, floor.den as int);
        }
        let t_v: u64 = vn * floor.den;
        let t_f: u64 = floor.num * vd;
        let lifted: u64 = if t_v >= t_f {
            t_v - t_f
        } else {
            0
        };
        let vf: u64 = vd * floor.den;
        proof {
            lemma_mul_le(lifted as int, ceil.den as int, 255int * 0xFFFF, 0xFFFF);
            lemma_mul_le((ceil.den - ceil.num) as int, vf as int, 0xFFFF, 255int * 0xFFFF);
            lemma_mul_le(vf as int, ceil.den as int, 255int * 0xFFFF, 0xFFFF);
            lemma_mul_le(1, 1, vf as int, ceil.den as int);
        }
        let num: u64 = lifted * ceil.den + (ceil.den - ceil.num) * vf;
        let den: u64 = vf * ceil.den;
        let nv: u64 = if num <= den {
            num
        } else {
            den
        };
        let h2 = Hsv {
            h_num: h.h_num,
            h_den: h.h_den,
            s_num: h.s_num,
            s_den: h.s_den,
            v_num: nv,
            v_den: den,
        };
        proof {
            assert(hsv_wf(h2@));
            // the product bound hsv_to_rgb needs: den * s_den * (60 * h_den)
            lemma_mul_le(den as int, h2.s_den as int, 255int * 0xFFFF * 0xFFFF, 255);
            lemma_mul_le(
                (den as int) * (h2.s_den as int),
                60int * (h2.h_den as int),
                255int * 0xFFFF * 0xFFFF * 255,
                60int * 255,
            );
        }
        let q = hsv_to_rgb(&h2);
        pixels.push(q);
        i += 1;
    }
    ColorImage { width: img.width, height: img.height, pixels }
}

/// Law: the window with floor 0 and ceiling 1 is the identity remap: every
/// output pixel equals the input pixel, channel for channel, as an exact
/// fraction.
pub proof fn lemma_tone_identity(p: RgbView)
    requires
        rgb_wf(p),
    ensures
        ({
            let q = spec_tone_pixel(p, 0, 1, 1, 1);
            &&& frac_eq(q.r, q.den, p.r, p.den)
            &&& frac_eq(q.g, q.den, p.g, p.den)
            &&& frac_eq(q.b, q.den, p.b, p.den)
        }),
{
    let h = spec_rgb_to_hsv(p);
    crate::color::lemma_rgb_to_hsv_wf(p);
    assert(spec_tone_value(h.v_num, h.v_den, 0, 1, 1, 1) == (h.v_num, h.v_den));
    assert(HsvView {
        h_num: h.h_num,
        h_den: h.h_den,
        s_num: h.s_num,
        s_den: h.s_den,
        v_num: h.v_num,
        v_den: h.v_den,
    } == h);
    crate::color::lemma_color_round_trip(p);
}

/// Law, at image level: a window with floor 0 and ceiling 1 gives back the
/// input image, pixel for pixel and channel for channel, as exact fractions.
/// The hypotheses are exactly what `apply_tone_window` ensures of its result.
pub proof fn lemma_tone_identity_image(img: ColorImage, out: ColorImage)
    requires
        img.wf(),
        out.pixels.len() == img.pixels.len(),
        forall|i: int|
            0 <= i < img.pixels.len() ==> (#[trigger] out.pixels[i])@ == spec_tone_pixel(
                img.pixels[i]@,
                0,
                1,
                1,
                1,
            ),
    ensures
        forall|i: int|
            0 <= i < img.pixels.len() ==> {
                let p = (#[trigger] img.pixels[i])@;
                let q = out.pixels[i]@;
                frac_eq(q.r, q.den, p.r, p.den) && frac_eq(q.g, q.den, p.g, p.den) && frac_eq(
                    q.b,
                    q.den,
                    p.b,
                    p.den,
                )
            },
{
    assert forall|i: int| 0 <= i < img.pixels.len() implies {
        let p = (#[trigger] img.pixels[i])@;
        let q = out.pixels[i]@;
        frac_eq(q.r, q.den, p.r, p.den) && frac_eq(q.g, q.den, p.g, p.den) && frac_eq(
            q.b,
            q.den,
            p.b,
            p.den,
        )
    } by {
        assert(rgb_wf(img.pixels[i]@));
        lemma_tone_identity(img.pixels[i]@);
    }
}

/// Law, at image level: between two windows with the same ceiling, the one
/// with the higher floor gives no pixel a larger Value channel.
pub proof fn lemma_tone_floor_monotonic_image(
    img: ColorImage,
    lo: ColorImage,
    hi: ColorImage,
    f1: Frac,
    f2: Frac,
    ceil: Frac,
)
    requires
        img.wf(),
        f1.wf(),
        f2.wf(),
        ceil.wf(),
        frac_le(f1.num as int, f1.den as int, f2.num as int, f2.den as int),
        lo.pixels.len() == img.pixels.len(),
        hi.pixels.len() == img.pixels.len(),
        forall|i: int|
            0 <= i < img.pixels.len() ==> (#[trigger] lo.pixels[i])@ == spec_tone_pixel(
                img.pixels[i]@,
                f1.num as int,
                f1.den as int,
                ceil.num as int,
                ceil.den as int,
            ),
        forall|i: int|
            0 <= i < img.pixels.len() ==> (#[trigger] hi.pixels[i])@ == spec_tone_pixel(
                img.pixels[i]@,
                f2.num as int,
                f2.den as int,
                ceil.num as int,
                ceil.den as int,
            ),
    ensures
        forall|i: int|
            0 <= i < img.pixels.len() ==> {
                let a = (#[trigger] lo.pixels[i])@;
                let b = hi.pixels[i]@;
                frac_le(
                    crate::color::max3(b.r, b.g, b.b),
                    b.den,
                    crate::color::max3(a.r, a.g, a.b),
                    a.den,
                )
            },
{
    assert forall|i: int| 0 <= i < img.pixels.len() implies {
        let a = (#[trigger] lo.pixels[i])@;
        let b = hi.pixels[i]@;
        frac_le(
            crate::color::max3(b.r, b.g, b.b),
            b.den,
            crate::color::max3(a.r, a.g, a.b),
            a.den,
        )
    } by {
        assert(rgb_wf(img.pixels[i]@));
        lemma_tone_floor_monotonic(
            img.pixels[i]@,
            f1.num as int,
            f1.den as int,
            f2.num as int,
            f2.den as int,
            ceil.num as int,
            ceil.den as int,
        );
    }
}

/// Raising the floor never raises the remapped Value: with the ceiling held
/// fixed, the window at the higher floor yields a value no larger than at
/// the lower one.
proof fn lemma_tone_value_floor_monotonic(
    v_num: int,
    v_den: int,
    f1n: int,
    f1d: int,
    f2n: int,
    f2d: int,
    cn: int,
    cd: int,
)
    requires
        1 <= v_den,
        0 <= v_num <= v_den,
        1 <= f1d,
        0 <= f1n <= f1d,
        1 <= f2d,
        0 <= f2n <= f2d,
        1 <= cd,
        0 <= cn <= cd,
        frac_le(f1n, f1d, f2n, f2d),
    ensures
        ({
            let t1 = spec_tone_value(v_num, v_den, f1n, f1d, cn, cd);
            let t2 = spec_tone_value(v_num, v_den, f2n, f2d, cn, cd);
            &&& frac_le(t2.0, t2.1, t1.0, t1.1)
            &&& 1 <= t1.1 && 0 <= t1.0 <= t1.1
            &&& 1 <= t2.1 && 0 <= t2.0 <= t2.1
        }),
{
    let a1 = if v_num * f1d - f1n * v_den >= 0 {
        v_num * f1d - f1n * v_den
    } else {
        0
    };
    let a2 = if v_num * f2d - f2n * v_den >= 0 {
        v_num * f2d - f2n * v_den
    } else {
        0
    };
    // the lifted (floor-subtracted) values compare: a2/(vd*f2d) <= a1/(vd*f1d)
    assert(a2 * (v_den * f1d) <= a1 * (v_den * f2d)) by (nonlinear_arith)
        requires
            f1n * f2d <= f2n * f1d,
            1 <= v_den,
            1 <= f1d,
            1 <= f2d,
            0 <= a1,
            a1 >= v_num * f1d - f1n * v_den,
            a2 == if v_num * f2d - f2n * v_den >= 0 {
                v_num * f2d - f2n * v_den
            } else {
                0
            },
    ;
    let num1 = a1 * cd + (cd - cn) * (v_den * f1d);
    let num2 = a2 * cd + (cd - cn) * (v_den * f2d);
    let den1 = (v_den * f1d) * cd;
    let den2 = (v_den * f2d) * cd;
    assert(num2 * den1 <= num1 * den2 && 0 <= num2 && 0 <= num1 && 1 <= den1 && 1 <= den2)
        by (nonlinear_arith)
        requires
            a2 * (v_den * f1d) <= a1 * (v_den * f2d),
            num1 == a1 * cd + (cd - cn) * (v_den * f1d),
            num2 == a2 * cd + (cd - cn) * (v_den * f2d),
            den1 == (v_den * f1d) * cd,
            den2 == (v_den * f2d) * cd,
            0 <= a1,
            0 <= a2,
            0 <= cn <= cd,
            1 <= cd,
            1 <= v_den,
            1 <= f1d,
            1 <= f2d,
    ;
    let m1 = if num1 <= den1 {
        num1
    } else {
        den1
    };
    let m2 = if num2 <= den2 {
        num2
    } else {
        den2
    };
    assert(m2 * den1 <= m1 * den2) by (nonlinear_arith)
        requires
            num2 * den1 <= num1 * den2,
            1 <= den1,
            1 <= den2,
            0 <= num1,
            0 <= num2,
            m1 == if num1 <= den1 {
                num1
            } else {
                den1
            },
            m2 == if num2 <= den2 {
                num2
            } else {
                den2
            },
    ;
}

/// Law: raising the value floor while holding the ceiling fixed never
/// increases any output pixel's Value channel (the maximal channel of the
/// remapped pixel).
pub proof fn lemma_tone_floor_monotonic(
    p: RgbView,
    f1n: int,
    f1d: int,
    f2n: int,
    f2d: int,
    cn: int,
    cd: int,
)
    requires
        rgb_wf(p),
        1 <= f1d,
        0 <= f1n <= f1d,
        1 <= f2d,
        0 <= f2n <= f2d,
        1 <= cd,
        0 <= cn <= cd,
        frac_le(f1n, f1d, f2n, f2d),
    ensures
        ({
            let o1 = spec_tone_pixel(p, f1n, f1d, cn, cd);
            let o2 = spec_tone_pixel(p, f2n, f2d, cn, cd);
            frac_le(
                crate::color::max3(o2.r, o2.g, o2.b),
                o2.den,
                crate::color::max3(o1.r, o1.g, o1.b),
                o1.den,
            )
        }),
{
    let h = spec_rgb_to_hsv(p);
    crate::color::lemma_rgb_to_hsv_wf(p);
    let t1 = spec_tone_value(h.v_num, h.v_den, f1n, f1d, cn, cd);
    let t2 = spec_tone_value(h.v_num, h.v_den, f2n, f2d, cn, cd);
    lemma_tone_value_floor_monotonic(h.v_num, h.v_den, f1n, f1d, f2n, f2d, cn, cd);
    let h1 = HsvView {
        h_num: h.h_num,
        h_den: h.h_den,
        s_num: h.s_num,
        s_den: h.s_den,
        v_num: t1.0,
        v_den: t1.1,
    };
    let h2 = HsvView {
        h_num: h.h_num,
        h_den: h.h_den,
        s_num: h.s_num,
        s_den: h.s_den,
        v_num: t2.0,
        v_den: t2.1,
    };
    crate::color::lemma_hsv_to_rgb_value(h1);
    crate::color::lemma_hsv_to_rgb_value(h2);
    let o1 = spec_hsv_to_rgb(h1);
    let o2 = spec_hsv_to_rgb(h2);
    let v1 = crate::color::max3(o1.r, o1.g, o1.b);
    let v2 = crate::color::max3(o2.r, o2.g, o2.b);
    // v2/o2.den == t2 <= t1 == v1/o1.den
    crate::frac::lemma_frac_eq_then_le(v2, o2.den, t2.0, t2.1, t1.0, t1.1);
    crate::frac::lemma_frac_le_then_eq(v2, o2.den, t1.0, t1.1, v1, o1.den);
}

} // verus!
