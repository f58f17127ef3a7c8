use vstd::prelude::*;

verus! {

use crate::color::{Rgb, rgb_wf};

/// A single-channel (luminance) image: row-major bytes, origin top-left.
pub struct LumaImage {
    pub width: usize,
    pub height: usize,
    pub data: Vec<u8>,
}

/// A full-color image: row-major exact-fraction pixels, origin top-left.
pub struct ColorImage {
    pub width: usize,
    pub height: usize,
    pub pixels: Vec<Rgb>,
}

impl LumaImage {
    /// Well-formed: the buffer holds exactly width * height samples, and the
    /// dimensions fit the 32-bit sizes a decoded image can have.
    pub open spec fn wf(self) -> bool {
        &&& self.data.len() == self.width * self.height
        &&& self.width <= 0xFFFF_FFFF
        &&& self.height <= 0xFFFF_FFFF
    }

    /// The luminance at (x, y), with out-of-bounds reads giving 0
    /// (zero padding, not edge replication).
    pub open spec fn at(self, x: int, y: int) -> int {
        if 0 <= x < self.width && 0 <= y < self.height {
            self.data[y * self.width + x] as int
        } else {
            0
        }
    }

    pub fn new(width: usize, height: usize, data: Vec<u8>) -> (r: LumaImage)
        requires
            data.len() == width * height,
            width <= 0xFFFF_FFFF,
            height <= 0xFFFF_FFFF,
        ensures
            r.wf(),
            r.width == width,
            r.height == height,
            r.data == data,
    {
        LumaImage { width, height, data }
    }

    /// Read one sample with the zero-padding convention of `at`.
    pub fn get(&self, x: i64, y: i64) -> (v: u8)
        requires
            self.wf(),
        ensures
            v as int == self.at(x as int, y as int),
    {
        if 0 <= x && 0 <= y && x < self.width as i64 && y < self.height as i64 {
            let xi = x as usize;
            let yi = y as usize;
            proof {
                assert((yi as int) * (self.width as int) + (xi as int) < (self.width as int) * (
                self.height as int) && 0 <= (yi as int) * (self.width as int) + (xi as int))
                    by (nonlinear_arith)
                    requires
                        0 <= (xi as int) && (xi as int) < (self.width as int),
                        0 <= (yi as int) && (yi as int) < (self.height as int),
                ;
            }
            self.data[yi * self.width + xi]
        } else {
            0
        }
    }
}

impl ColorImage {
    /// Well-formed: one well-formed pixel per grid cell.
    pub open spec fn wf(self) -> bool {
        &&& self.pixels.len() == self.width * self.height
        &&& self.width <= 0xFFFF_FFFF
        &&& self.height <= 0xFFFF_FFFF
        &&& forall|i: int| 0 <= i < self.pixels.len() ==> rgb_wf(#[trigger] self.pixels[i]@)
    }
}

/// Expand a luminance image to a full-color one with equal channels,
/// as happens when a finished edge-filter result becomes the viewer's
/// working image.
pub fn luma_to_color(img: &LumaImage) -> (out: ColorImage)
    requires
        img.wf(),
    ensures
        out.wf(),
        out.width == img.width,
        out.height == img.height,
        forall|i: int|
            0 <= i < img.data.len() ==> {
                let p = #[trigger] out.pixels[i];
                p.r == img.data[i] as u64 && p.g == img.data[i] as u64 && p.b == img.data[i] as u64
                    && p.den == 255
            },
{
    let mut pixels: Vec<Rgb> = Vec::new();
    let n = img.data.len();
    let mut i: usize = 0;
    while i < n
        invariant
            i <= n,
            n == img.data.len(),
            pixels.len() == i,
            forall|j: int|
                0 <= j < i ==> {
                    let p = #[trigger] pixels[j];
                    p.r == img.data[j] as u64 && p.g == img.data[j] as u64 && p.b == img.data[j]
                        as u64 && p.den == 255 && rgb_wf(p@)
                },
        decreases n - i,
    {
        let v = img.data[i];
        pixels.push(Rgb { r: v as u64, g: v as u64, b: v as u64, den: 255 });
        i += 1;
    }
    ColorImage { width: img.width, height: img.height, pixels }
}

} // verus!
