use vstd::arithmetic::div_mod::lemma_fundamental_div_mod_converse;
use vstd::prelude::*;

verus! {

use crate::frac::frac_eq;

/// Largest channel denominator the executable conversions accept; keeps all
/// intermediate products (up to 420 * den) inside u64.
pub const MAX_DEN: u64 = 0x10_0000_0000_0000;

/// An RGB pixel with exact fractional channels r/den, g/den, b/den,
/// each confined to [0, 1].
#[derive(Clone, Copy, PartialEq, Eq, Structural, Debug)]
pub struct Rgb {
    pub r: u64,
    pub g: u64,
    pub b: u64,
    pub den: u64,
}

/// An HSV pixel with exact fractional components: hue h_num/h_den in
/// degrees [0, 360), saturation s_num/s_den and value v_num/v_den in [0, 1].
#[derive(Clone, Copy, PartialEq, Eq, Structural, Debug)]
pub struct Hsv {
    pub h_num: u64,
    pub h_den: u64,
    pub s_num: u64,
    pub s_den: u64,
    pub v_num: u64,
    pub v_den: u64,
}

/// Mathematical model of an RGB pixel.
pub ghost struct RgbView {
    pub r: int,
    pub g: int,
    pub b: int,
    pub den: int,
}

/// Mathematical model of an HSV pixel.
pub ghost struct HsvView {
    pub h_num: int,
    pub h_den: int,
    pub s_num: int,
    pub s_den: int,
    pub v_num: int,
    pub v_den: int,
}

impl View for Rgb {
    type V = RgbView;

    open spec fn view(&self) -> RgbView {
        RgbView { r: self.r as int, g: self.g as int, b: self.b as int, den: self.den as int }
    }
}

impl View for Hsv {
    type V = HsvView;

    open spec fn view(&self) -> HsvView {
        HsvView {
            h_num: self.h_num as int,
            h_den: self.h_den as int,
            s_num: self.s_num as int,
            s_den: self.s_den as int,
            v_num: self.v_num as int,
            v_den: self.v_den as int,
        }
    }
}

pub open spec fn rgb_wf(p: RgbView) -> bool {
    &&& 1 <= p.den
    &&& 0 <= p.r <= p.den
    &&& 0 <= p.g <= p.den
    &&& 0 <= p.b <= p.den
}

pub open spec fn hsv_wf(h: HsvView) -> bool {
    &&& 1 <= h.h_den
    &&& 1 <= h.s_den
    &&& 1 <= h.v_den
    &&& 0 <= h.h_num < 360 * h.h_den
    &&& 0 <= h.s_num <= h.s_den
    &&& 0 <= h.v_num <= h.v_den
}

impl Rgb {
    pub open spec fn wf(self) -> bool {
        rgb_wf(self@)
    }
}

impl Hsv {
    pub open spec fn wf(self) -> bool {
        hsv_wf(self@)
    }
}

pub open spec fn max3(r: int, g: int, b: int) -> int {
    if r >= g && r >= b {
        r
    } else if g >= b {
        g
    } else {
        b
    }
}

pub open spec fn min3(r: int, g: int, b: int) -> int {
    if r <= g && r <= b {
        r
    } else if g <= b {
        g
    } else {
        b
    }
}

/// The RGB -> HSV transform on exact values: value is the channel maximum,
/// saturation is chroma over value, and hue is picked by the maximal channel
/// with ties resolving in the order R, G, B.
pub open spec fn spec_rgb_to_hsv(p: RgbView) -> HsvView {
    let mx = max3(p.r, p.g, p.b);
    let mn = min3(p.r, p.g, p.b);
    let c = mx - mn;
    let s = if mx == 0 { (0int, 1int) } else { (c, mx) };
    let h = if c == 0 {
        (0int, 1int)
    } else if p.r >= p.g && p.r >= p.b {
        if p.g >= p.b {
            (60 * (p.g - p.b), c)
        } else {
            (60 * (p.g - p.b) + 360 * c, c)
        }
    } else if p.g >= p.r && p.g >= p.b {
        (60 * (p.b - p.r) + 120 * c, c)
    } else {
        (60 * (p.r - p.g) + 240 * c, c)
    };
    HsvView { h_num: h.0, h_den: h.1, s_num: s.0, s_den: s.1, v_num: mx, v_den: p.den }
}

/// The HSV -> RGB transform on exact values. With w = 60 * h_den, the hue
/// sextant is h_num / w, and all outputs share the denominator
/// v_den * s_den * w.
pub open spec fn spec_hsv_to_rgb(h: HsvView) -> RgbView {
    let w = 60 * h.h_den;
    let d = h.v_den * h.s_den * w;
    let c = h.v_num * h.s_num * w;
    let m = h.v_num * (h.s_den - h.s_num) * w;
    let k = h.h_num / w;
    let q = h.h_num % (2 * w);
    let xf = if q >= w { 2 * w - q } else { q };
    let x = h.v_num * h.s_num * xf;
    if k == 0 {
        RgbView { r: c + m, g: x + m, b: m, den: d }
    } else if k == 1 {
        RgbView { r: x + m, g: c + m, b: m, den: d }
    } else if k == 2 {
        RgbView { r: m, g: c + m, b: x + m, den: d }
    } else if k == 3 {
        RgbView { r: m, g: x + m, b: c + m, den: d }
    } else if k == 4 {
        RgbView { r: x + m, g: m, b: c + m, den: d }
    } else {
        RgbView { r: c + m, g: m, b: x + m, den: d }
    }
}

pub proof fn lemma_mul_le(a: int, b: int, x: int, y: int) by (nonlinear_arith)
    requires
        0 <= a <= x,
        0 <= b <= y,
    ensures
        a * b <= x * y,
{
}

/// Convert an RGB pixel to HSV. The result is exact: it equals the
/// mathematical transform `spec_rgb_to_hsv` on the pixel's value.
pub fn rgb_to_hsv(p: &Rgb) -> (h: Hsv)
    requires
        p.wf(),
        p.den <= MAX_DEN,
    ensures
        h@ == spec_rgb_to_hsv(p@),
        h.wf(),
        h@.v_den == p@.den,
        h@.s_den <= p@.den,
        h@.h_den <= p@.den,
{
    let r = p.r;
    let g = p.g;
    let b = p.b;
    let mx = if r >= g && r >= b { r } else if g >= b { g } else { b };
    let mn = if r <= g && r <= b { r } else if g <= b { g } else { b };
    let c = mx - mn;
    let (sn, sd) = if mx == 0 { (0u64, 1u64) } else { (c, mx) };
    let (hn, hd) = if c == 0 {
        (0u64, 1u64)
    } else if r >= g && r >= b {
        if g >= b {
            (60 * (g - b), c)
        } else {
            (60 * ((g + 6 * c) - b), c)
        }
    } else if g >= r && g >= b {
        (60 * ((b + 2 * c) - r), c)
    } else {
        (60 * ((r + 4 * c) - g), c)
    };
    Hsv { h_num: hn, h_den: hd, s_num: sn, s_den: sd, v_num: mx, v_den: p.den }
}

/// Convert an HSV pixel to RGB. The result is exact: it equals the
/// mathematical transform `spec_hsv_to_rgb` on the pixel's value.
pub fn hsv_to_rgb(h: &Hsv) -> (p: Rgb)
    requires
        h.wf(),
        h.h_den <= MAX_DEN,
        (h.v_den as int) * (h.s_den as int) * (60 * (h.h_den as int)) <= u64::MAX as int,
    ensures
        p@ == spec_hsv_to_rgb(h@),
        p.wf(),
{
    let vn = h.v_num;
    let vd = h.v_den;
    let sn = h.s_num;
    let sd = h.s_den;
    let hn = h.h_num;
    let hd = h.h_den;
    let w: u64 = 60 * hd;
    proof {
        let dd = (vd as int) * (sd as int) * ((w as int));
        lemma_mul_le(vd as int, sd as int, vd as int, sd as int);
        lemma_mul_le((vd as int) * (sd as int), 1, (vd as int) * (sd as int), w as int);
        lemma_mul_le(vn as int, sn as int, vd as int, sd as int);
        lemma_mul_le((vn as int) * (sn as int), w as int, (vd as int) * (sd as int), w as int);
        lemma_mul_le(vn as int, (sd - sn) as int, vd as int, sd as int);
        lemma_mul_le(
            (vn as int) * ((sd - sn) as int),
            w as int,
            (vd as int) * (sd as int),
            w as int,
        );
        lemma_mul_le(1, 1, vd as int, sd as int);
        lemma_mul_le(1, 1, (vd as int) * (sd as int), w as int);
    }
    let d1: u64 = vd * sd;
    let d: u64 = d1 * w;
    let a: u64 = vn * sn;
    let c_n: u64 = a * w;
    let m1: u64 = vn * (sd - sn);
    let m_n: u64 = m1 * w;
    proof {
        assert((vn as int) * (sn as int) + (vn as int) * ((sd - sn) as int) == (vn as int) * (
        sd as int)) by (nonlinear_arith);
        lemma_mul_le(vn as int, sd as int, vd as int, sd as int);
        lemma_mul_le((vn as int) * (sd as int), w as int, (vd as int) * (sd as int), w as int);
        assert(((vn as int) * (sn as int)) * (w as int) + ((vn as int) * ((sd - sn) as int)) * (
        w as int) == ((vn as int) * (sd as int)) * (w as int)) by (nonlinear_arith);
    }
    let k: u64 = hn / w;
    let q: u64 = hn % (2 * w);
    let xf: u64 = if q >= w { 2 * w - q } else { q };
    proof {
        lemma_mul_le(a as int, xf as int, a as int, w as int);
    }
    let x_n: u64 = a * xf;
    let (r, g, b) = if k == 0 {
        (c_n + m_n, x_n + m_n, m_n)
    } else if k == 1 {
        (x_n + m_n, c_n + m_n, m_n)
    } else if k == 2 {
        (m_n, c_n + m_n, x_n + m_n)
    } else if k == 3 {
        (m_n, x_n + m_n, c_n + m_n)
    } else if k == 4 {
        (x_n + m_n, m_n, c_n + m_n)
    } else {
        (c_n + m_n, m_n, x_n + m_n)
    };
    Rgb { r, g, b, den: d }
}

/// The transform to HSV keeps every component well-formed: the value keeps
/// the pixel's denominator, and saturation and hue denominators never
/// exceed it.
pub proof fn lemma_rgb_to_hsv_wf(p: RgbView)
    requires
        rgb_wf(p),
    ensures
        hsv_wf(spec_rgb_to_hsv(p)),
        spec_rgb_to_hsv(p).v_num == max3(p.r, p.g, p.b),
        spec_rgb_to_hsv(p).v_den == p.den,
        spec_rgb_to_hsv(p).s_den <= p.den,
        spec_rgb_to_hsv(p).h_den <= p.den,
{
}

/// The Value channel survives the transform back to RGB: the maximal output
/// channel equals v as a fraction (the offset m = v - c is added to every
/// channel, and the chroma lands on the maximal one).
pub proof fn lemma_hsv_to_rgb_value(h: HsvView)
    requires
        hsv_wf(h),
    ensures
        rgb_wf(spec_hsv_to_rgb(h)),
        frac_eq(
            max3(spec_hsv_to_rgb(h).r, spec_hsv_to_rgb(h).g, spec_hsv_to_rgb(h).b),
            spec_hsv_to_rgb(h).den,
            h.v_num,
            h.v_den,
        ),
{
    let vn = h.v_num;
    let vd = h.v_den;
    let sn = h.s_num;
    let sd = h.s_den;
    let w = 60 * h.h_den;
    vstd::arithmetic::div_mod::lemma_mod_bound(h.h_num, 2 * w);
    let q = h.h_num % (2 * w);
    let xf = if q >= w {
        2 * w - q
    } else {
        q
    };
    assert(0 <= xf <= w);
    assert(0 <= vn * sn * xf <= vn * sn * w) by (nonlinear_arith)
        requires
            0 <= vn,
            0 <= sn,
            0 <= xf <= w,
    ;
    assert(0 <= vn * (sd - sn) * w) by (nonlinear_arith)
        requires
            0 <= vn,
            sn <= sd,
            0 <= w,
    ;
    assert(vn * sn * w + vn * (sd - sn) * w == vn * sd * w) by (nonlinear_arith);
    assert(vn * sd * w <= vd * sd * w) by (nonlinear_arith)
        requires
            0 <= vn <= vd,
            0 <= sd,
            0 <= w,
    ;
    assert((vn * sn * w + vn * (sd - sn) * w) * vd == vn * (vd * sd * w)) by (nonlinear_arith);
    assert(1 <= vd * sd * w) by (nonlinear_arith)
        requires
            1 <= vd,
            1 <= sd,
            60 <= w,
    ;
}

/// The polynomial identities behind every hue sextant of the round trip:
/// with chroma c = mx - mn and a middle-channel offset t in [0, c], the
/// reconstructed maximal channel is mx, the minimal one is mn, and the
/// middle one is t + mn, all over the denominator (d * mx) * (60 * c).
proof fn lemma_sextant(mx: int, mn: int, c: int, d: int, t: int) by (nonlinear_arith)
    requires
        1 <= c,
        c == mx - mn,
        0 <= mn,
        mx <= d,
        1 <= d,
        0 <= t <= c,
    ensures
        ((mx * c) * (60 * c) + (mx * mn) * (60 * c)) * d == mx * ((d * mx) * (60 * c)),
        ((mx * mn) * (60 * c)) * d == mn * ((d * mx) * (60 * c)),
        ((mx * c) * (60 * t) + (mx * mn) * (60 * c)) * d == (t + mn) * ((d * mx) * (60 * c)),
        0 <= (mx * mn) * (60 * c),
        0 <= (mx * c) * (60 * t),
        (mx * c) * (60 * t) <= (mx * c) * (60 * c),
        (mx * c) * (60 * c) + (mx * mn) * (60 * c) <= (d * mx) * (60 * c),
        1 <= (d * mx) * (60 * c),
{
}

/// Law: converting any well-formed RGB pixel to HSV and back yields exactly
/// the original pixel. Each reconstructed channel equals the corresponding
/// input channel as a fraction, with no tolerance; in particular the hue
/// convention for achromatic pixels (hue 0) is reconstructed losslessly.
#[verifier::spinoff_prover]
#[verifier::rlimit(50)]
pub proof fn lemma_color_round_trip(p: RgbView)
    requires
        rgb_wf(p),
    ensures
        rgb_wf(spec_hsv_to_rgb(spec_rgb_to_hsv(p))),
        frac_eq(
            spec_hsv_to_rgb(spec_rgb_to_hsv(p)).r,
            spec_hsv_to_rgb(spec_rgb_to_hsv(p)).den,
            p.r,
            p.den,
        ),
        frac_eq(
            spec_hsv_to_rgb(spec_rgb_to_hsv(p)).g,
            spec_hsv_to_rgb(spec_rgb_to_hsv(p)).den,
            p.g,
            p.den,
        ),
        frac_eq(
            spec_hsv_to_rgb(spec_rgb_to_hsv(p)).b,
            spec_hsv_to_rgb(spec_rgb_to_hsv(p)).den,
            p.b,
            p.den,
        ),
{
    let r = p.r;
    let g = p.g;
    let b = p.b;
    let d = p.den;
    let mx = max3(r, g, b);
    let mn = min3(r, g, b);
    let c = mx - mn;
    let h = spec_rgb_to_hsv(p);
    if c == 0 {
        let sden = h.s_den;
        assert(r == mx && g == mx && b == mx);
        assert(((mx * sden) * 60) * d == mx * ((d * sden) * 60)) by (nonlinear_arith);
        assert((mx * sden) * 60 <= (d * sden) * 60 && 0 <= (mx * sden) * 60 && 1 <= (d * sden)
            * 60) by (nonlinear_arith)
            requires
                0 <= mx <= d,
                1 <= sden,
                1 <= d,
        ;
    } else {
        let w = 60 * c;
        let hn = h.h_num;
        assert(1 <= mx && mx <= d && 0 <= mn && mn + c == mx);
        if r >= g && r >= b {
            if g >= b {
                // maximal channel R, hue in the first sextant
                assert(mx == r && mn == b && hn == 60 * (g - b));
                if g < r {
                    lemma_fundamental_div_mod_converse(hn, w, 0, hn);
                    lemma_fundamental_div_mod_converse(hn, 2 * w, 0, hn);
                    lemma_sextant(mx, mn, c, d, g - b);
                } else {
                    lemma_fundamental_div_mod_converse(hn, w, 1, 0);
                    lemma_fundamental_div_mod_converse(hn, 2 * w, 0, hn);
                    lemma_sextant(mx, mn, c, d, c);
                }
            } else {
                // maximal channel R, hue in the last sextant
                assert(mx == r && mn == g && hn == 60 * (g - b) + 360 * c);
                lemma_fundamental_div_mod_converse(hn, w, 5, hn - 5 * w);
                lemma_fundamental_div_mod_converse(hn, 2 * w, 2, hn - 4 * w);
                lemma_sextant(mx, mn, c, d, b - g);
            }
        } else if g >= r && g >= b {
            assert(mx == g && hn == 60 * (b - r) + 120 * c);
            if b >= r {
                assert(mn == r);
                if b < g {
                    // maximal channel G, third sextant
                    lemma_fundamental_div_mod_converse(hn, w, 2, hn - 2 * w);
                    lemma_fundamental_div_mod_converse(hn, 2 * w, 1, hn - 2 * w);
                    lemma_sextant(mx, mn, c, d, b - r);
                } else {
                    // b == g: boundary of the fourth sextant
                    lemma_fundamental_div_mod_converse(hn, w, 3, 0);
                    lemma_fundamental_div_mod_converse(hn, 2 * w, 1, w);
                    lemma_sextant(mx, mn, c, d, c);
                }
            } else {
                // maximal channel G, second sextant
                assert(mn == b);
                lemma_fundamental_div_mod_converse(hn, w, 1, hn - w);
                lemma_fundamental_div_mod_converse(hn, 2 * w, 0, hn);
                lemma_sextant(mx, mn, c, d, r - b);
            }
        } else {
            assert(mx == b && hn == 60 * (r - g) + 240 * c);
            if r >= g {
                // maximal channel B, fifth sextant
                assert(mn == g);
                lemma_fundamental_div_mod_converse(hn, w, 4, hn - 4 * w);
                lemma_fundamental_div_mod_converse(hn, 2 * w, 2, hn - 4 * w);
                lemma_sextant(mx, mn, c, d, r - g);
            } else {
                // maximal channel B, fourth sextant
                assert(mn == r);
                lemma_fundamental_div_mod_converse(hn, w, 3, hn - 3 * w);
                lemma_fundamental_div_mod_converse(hn, 2 * w, 1, hn - 2 * w);
                lemma_sextant(mx, mn, c, d, g - r);
            }
        }
    }
    let out = spec_hsv_to_rgb(h);
    assert(rgb_wf(out));
    assert(frac_eq(out.r, out.den, p.r, p.den));
    assert(frac_eq(out.g, out.den, p.g, p.den));
    assert(frac_eq(out.b, out.den, p.b, p.den));
}

} // verus!
