use vstd::arithmetic::div_mod::{lemma_div_is_ordered, lemma_div_multiples_vanish};
use vstd::prelude::*;

verus! {

use crate::color::{Rgb, RgbView, max3, rgb_wf};
use crate::frac::Frac;
use crate::img::ColorImage;

/// The bin a pixel falls into: its Value channel (the channel maximum, a
/// fraction of den) scaled by n_bins - 1 and floored. The width 1/(n_bins-1)
/// is intentional: the full Value 1 lands exactly on the last bin's lower
/// boundary, making the last bin degenerate.
pub open spec fn spec_bin_of(p: RgbView, n_bins: int) -> int {
    max3(p.r, p.g, p.b) * (n_bins - 1) / p.den
}

/// How many pixels of s fall into bin k.
pub open spec fn bin_count(s: Seq<Rgb>, n_bins: int, k: int) -> int
    decreases s.len(),
{
    if s.len() == 0 {
        0
    } else {
        bin_count(s.drop_last(), n_bins, k) + if spec_bin_of(s.last()@, n_bins) == k {
            1int
        } else {
            0int
        }
    }
}

/// The sum of a sequence of counts.
pub open spec fn sum_counts(s: Seq<usize>) -> int
    decreases s.len(),
{
    if s.len() == 0 {
        0
    } else {
        sum_counts(s.drop_last()) + s.last()
    }
}

/// The largest count in a sequence (0 if empty).
pub open spec fn max_count(s: Seq<usize>) -> int
    decreases s.len(),
{
    if s.len() == 0 {
        0
    } else if s.last() >= max_count(s.drop_last()) {
        s.last() as int
    } else {
        max_count(s.drop_last())
    }
}

/// Updating one count changes the sum by the difference at that slot.
proof fn lemma_sum_update(s: Seq<usize>, j: int, v: usize)
    requires
        0 <= j < s.len(),
    ensures
        sum_counts(s.update(j, v)) == sum_counts(s) - s[j] + v,
    decreases s.len(),
{
    let t = s.update(j, v);
    if j == s.len() - 1 {
        assert(t.drop_last() =~= s.drop_last());
    } else {
        assert(t.drop_last() =~= s.drop_last().update(j, v));
        lemma_sum_update(s.drop_last(), j, v);
    }
}

/// Count the Value distribution of an image into n_bins bins.
/// Every pixel lands in exactly one bin, so the counts total the pixel count
/// (width * height), whatever the image holds.
pub fn build_histogram(img: &ColorImage, n_bins: usize) -> (counts: Vec<usize>)
    requires
        img.wf(),
        2 <= n_bins,
    ensures
        counts.len() == n_bins,
        forall|k: int|
            0 <= k < n_bins ==> #[trigger] counts[k] as int == bin_count(
                img.pixels@,
                n_bins as int,
                k,
            ),
        sum_counts(counts@) == img.width * img.height,
{
    let mut counts: Vec<usize> = Vec::new();
    let mut j: usize = 0;
    while j < n_bins
        invariant
            j <= n_bins,
            counts.len() == j,
            forall|k: int| 0 <= k < j ==> #[trigger] counts[k] == 0,
            sum_counts(counts@) == 0,
        decreases n_bins - j,
    {
        proof {
            assert(counts@.push(0).drop_last() =~= counts@);
        }
        counts.push(0);
        j += 1;
    }
    let n = img.pixels.len();
    let mut i: usize = 0;
    while i < n
        invariant
            img.wf(),
            2 <= n_bins,
            n == img.pixels.len(),
            i <= n,
            counts.len() == n_bins,
            forall|k: int|
                0 <= k < n_bins ==> #[trigger] counts[k] as int == bin_count(
                    img.pixels@.take(i as int),
                    n_bins as int,
                    k,
                ),
            forall|k: int| 0 <= k < n_bins ==> #[trigger] counts[k] <= i,
            sum_counts(counts@) == i,
        decreases n - i,
    {
        let p = img.pixels[i];
        proof {
            assert(rgb_wf(img.pixels[i as int]@));
        }
        let r = p.r;
        let g = p.g;
        let b = p.b;
        let mx: u64 = if r >= g && r >= b { r } else if g >= b { g } else { b };
        proof {
            assert((mx as int) * ((n_bins - 1) as int) <= (u64::MAX as int) * (u64::MAX as int))
                by (nonlinear_arith)
                requires
                    0 <= mx as int <= u64::MAX as int,
                    0 <= (n_bins - 1) as int <= u64::MAX as int,
            ;
        }
        let prod: u128 = (mx as u128) * ((n_bins - 1) as u128);
        let bin128: u128 = prod / (p.den as u128);
        proof {
            let mxi = mx as int;
            let di = p.den as int;
            let nbi = (n_bins - 1) as int;
            assert(mxi * nbi <= di * nbi) by (nonlinear_arith)
                requires
                    0 <= mxi <= di,
                    0 <= nbi,
            ;
            lemma_div_is_ordered(mxi * nbi, di * nbi, di);
            lemma_div_multiples_vanish(nbi, di);
            assert(di * nbi == nbi * di) by (nonlinear_arith);
            assert(bin128 as int <= nbi);
        }
        let bin: usize = bin128 as usize;
        let ghost cpre = counts@;
        let cur = counts[bin];
        counts.set(bin, cur + 1);
        proof {
            let s = img.pixels@;
            let pre = s.take(i as int);
            let post = s.take(i + 1);
            assert(post.drop_last() =~= pre);
            assert(post.last() == s[i as int]);
            assert(spec_bin_of(s[i as int]@, n_bins as int) == bin as int);
            lemma_sum_update(cpre, bin as int, (cur + 1) as usize);
            assert forall|k: int| 0 <= k < n_bins implies #[trigger] counts[k] as int == bin_count(
                post,
                n_bins as int,
                k,
            ) by {
                if k == bin as int {
                    assert(counts[k] as int == cpre[k] + 1);
                } else {
                    assert(counts[k] == cpre[k]);
                }
            }
        }
        i += 1;
    }
    proof {
        assert(img.pixels@.take(n as int) =~= img.pixels@);
    }
    counts
}

/// Scale the counts against the padded peak max + max/5 (a 20% headroom, in
/// integer arithmetic), giving for each bin an exact fraction in [0, 1].
/// An all-zero histogram (an empty image included) normalizes to all zero
/// fractions rather than dividing by the degenerate peak.
pub fn normalize_histogram(counts: &Vec<usize>) -> (scaled: Vec<Frac>)
    requires
        forall|k: int| 0 <= k < counts.len() ==> #[trigger] counts[k] <= 0x1000_0000_0000_0000,
    ensures
        scaled.len() == counts.len(),
        max_count(counts@) == 0 ==> forall|k: int|
            0 <= k < counts.len() ==> (#[trigger] scaled[k]).num == 0 && scaled[k].den == 1,
        max_count(counts@) > 0 ==> forall|k: int|
            0 <= k < counts.len() ==> (#[trigger] scaled[k]).num == counts[k] as u64
                && scaled[k].den as int == max_count(counts@) + max_count(counts@) / 5,
        forall|k: int| 0 <= k < counts.len() ==> (#[trigger] scaled[k]).wf(),
{
    let n = counts.len();
    let mut mx: usize = 0;
    let mut i: usize = 0;
    while i < n
        invariant
            i <= n,
            n == counts.len(),
            mx as int == max_count(counts@.take(i as int)),
            mx <= 0x1000_0000_0000_0000,
            forall|k: int| 0 <= k < counts.len() ==> #[trigger] counts[k] <= 0x1000_0000_0000_0000,
            forall|k: int| 0 <= k < i ==> #[trigger] counts[k] <= mx,
        decreases n - i,
    {
        proof {
            assert(counts@.take(i + 1).drop_last() =~= counts@.take(i as int));
        }
        if counts[i] > mx {
            mx = counts[i];
        }
        i += 1;
    }
    proof {
        assert(counts@.take(n as int) =~= counts@);
    }
    let mut scaled: Vec<Frac> = Vec::new();
    if mx == 0 {
        let mut k: usize = 0;
        while k < n
            invariant
                k <= n,
                scaled.len() == k,
                forall|j: int|
                    0 <= j < k ==> (#[trigger] scaled[j]).num == 0 && scaled[j].den == 1
                        && scaled[j].wf(),
            decreases n - k,
        {
            scaled.push(Frac { num: 0, den: 1 });
            k += 1;
        }
        scaled
    } else {
        let den: u64 = mx as u64 + (mx as u64) / 5;
        let mut k: usize = 0;
        while k < n
            invariant
                k <= n,
                n == counts.len(),
                scaled.len() == k,
                mx >= 1,
                den as int == mx + mx as int / 5,
                forall|j: int| 0 <= j < n ==> #[trigger] counts[j] <= mx,
                forall|j: int|
                    0 <= j < k ==> (#[trigger] scaled[j]).num == counts[j] as u64 && scaled[j].den
                        == den && scaled[j].wf(),
            decreases n - k,
        {
            scaled.push(Frac { num: counts[k] as u64, den });
            k += 1;
        }
        scaled
    }
}

} // verus!
