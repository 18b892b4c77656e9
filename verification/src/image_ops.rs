//! Reusable image transformations: bounded crop and resize, and automatic
//! levels with outlier clipping.
use vstd::prelude::*;
use crate::pixels::{area, chan, is_cut_out, keeps_flat_channels, well_sized, Picture, Raster};

verus! {

/// The region that `crop_image` keeps: `None` when the corner lies outside the
/// image or the clamped region is empty, else the clamped width and height.
pub open spec fn crop_region(p: Picture, x: u32, y: u32, width: u32, height: u32) -> Option<(u32, u32)> {
    if x >= p.width || y >= p.height {
        None
    } else {
        let w = if width <= p.width - x { width } else { (p.width - x) as u32 };
        let h = if height <= p.height - y { height } else { (p.height - y) as u32 };
        if w == 0 || h == 0 {
            None
        } else {
            Some((w, h))
        }
    }
}

/// Crops an image to a rectangular area in pixel space. A corner outside the
/// image, or an empty area, leaves the image unchanged; an area that runs past
/// the edge is clamped to it.
pub fn crop_image(img: &Raster, x: u32, y: u32, width: u32, height: u32) -> (r: Raster)
    ensures
        match crop_region(img@, x, y, width, height) {
            None => r@ == img@,
            Some((w, h)) => is_cut_out(img@, x as int, y as int, w, h, r@),
        },
{
    if x >= img.width() || y >= img.height() {
        return img.duplicate();
    }
    let w = if width <= img.width() - x { width } else { img.width() - x };
    let h = if height <= img.height() - y { height } else { img.height() - y };
    if w == 0 || h == 0 {
        return img.duplicate();
    }
    img.crop_imm(x, y, w, h)
}

/// Resizes an image to exact dimensions; a zero dimension leaves it unchanged.
pub fn resize_image(img: &Raster, width: u32, height: u32) -> (r: Raster)
    requires
        area(width, height) * 4 <= isize::MAX,
    ensures
        width == 0 || height == 0 ==> r@ == img@,
        width != 0 && height != 0 ==> r@.width == width && r@.height == height && well_sized(r@),
        width == img@.width && height == img@.height ==> r@ == img@,
        keeps_flat_channels(img@, r@),
{
    if width == 0 || height == 0 {
        return img.duplicate();
    }
    img.resize_exact(width, height)
}


/// Among the first `m` pixels, how many are not fully transparent and have
/// value `v` in channel `c`.
pub open spec fn level_count(p: Picture, c: int, v: int, m: int) -> nat
    decreases m,
{
    if m <= 0 {
        0
    } else {
        level_count(p, c, v, m - 1) + if chan(p, m - 1, 3) > 0 && chan(p, m - 1, c) == v {
            1nat
        } else {
            0nat
        }
    }
}

/// Among the first `m` pixels, how many are not fully transparent.
pub open spec fn opaque_count(p: Picture, m: int) -> nat
    decreases m,
{
    if m <= 0 {
        0
    } else {
        opaque_count(p, m - 1) + if chan(p, m - 1, 3) > 0 {
            1nat
        } else {
            0nat
        }
    }
}

/// The 256-bucket histogram of channel `c` over the pixels that are not fully
/// transparent.
pub open spec fn histogram(p: Picture, c: int) -> Seq<u64> {
    Seq::new(256, |v: int| level_count(p, c, v, area(p.width, p.height)) as u64)
}

/// How many pixels auto levels ignores at each end of a histogram: 0.5% of
/// `total`, rounded half up.
pub open spec fn clip_count(total: nat) -> nat {
    (total + 100) / 200
}

/// Sum of the first `l` buckets.
pub open spec fn count_below(h: Seq<u64>, l: int) -> int
    decreases l,
{
    if l <= 0 {
        0
    } else {
        count_below(h, l - 1) + h[l - 1]
    }
}

/// Sum of the buckets from `l` up to 255.
pub open spec fn count_from(h: Seq<u64>, l: int) -> int
    decreases 256 - l,
{
    if l >= 256 || l < 0 {
        0
    } else {
        h[l] + count_from(h, l + 1)
    }
}

/// The first level from `l` on (below 255) at which more than `clip` values lie
/// at or below it; 255 when there is none.
pub open spec fn low_level(h: Seq<u64>, clip: int, l: int) -> int
    decreases 255 - l,
{
    if l >= 255 {
        255
    } else if count_below(h, l + 1) > clip {
        l
    } else {
        low_level(h, clip, l + 1)
    }
}

/// The last level from `l` down (above 0) at which more than `clip` values lie
/// at or above it; 0 when there is none.
pub open spec fn high_level(h: Seq<u64>, clip: int, l: int) -> int
    decreases l,
{
    if l <= 0 {
        0
    } else if count_from(h, l) > clip {
        l
    } else {
        high_level(h, clip, l - 1)
    }
}

/// The stretch bounds of a histogram with `clip` outliers ignored at each end;
/// a degenerate histogram gives the full range.
pub open spec fn level_bounds(h: Seq<u64>, clip: int) -> (u8, u8) {
    let low = low_level(h, clip, 0);
    let high = high_level(h, clip, 255);
    if high < low {
        (0, 255)
    } else {
        (low as u8, high as u8)
    }
}

/// `v` mapped linearly from `low..=high` onto `0..=255`, clamped; unchanged when
/// the range is empty.
pub open spec fn stretched(v: u8, low: u8, high: u8) -> u8 {
    if high <= low {
        v
    } else if v < low {
        0
    } else if v > high {
        255
    } else {
        ((v - low) * 255 / (high - low)) as u8
    }
}

/// `q` is `p` after automatic levels: each colour channel is stretched between
/// the bounds found in its histogram after ignoring 0.5% of the non-transparent
/// pixels at each end; alpha is kept; an image with no visible pixel is kept.
pub open spec fn is_auto_adjusted(p: Picture, q: Picture) -> bool {
    let total = opaque_count(p, area(p.width, p.height));
    &&& q.width == p.width
    &&& q.height == p.height
    &&& q.pixels.len() == p.pixels.len()
    &&& forall|k: int, c: int|
        0 <= k < area(p.width, p.height) && 0 <= c < 4 ==> #[trigger] chan(q, k, c) == if total
            == 0 || c == 3 {
            chan(p, k, c)
        } else {
            let b = level_bounds(histogram(p, c), clip_count(total) as int);
            stretched(chan(p, k, c), b.0, b.1)
        }
}

fn stretch(v: u8, low: u8, high: u8) -> (r: u8)
    ensures
        r == stretched(v, low, high),
{
    if high <= low {
        v
    } else if v < low {
        0
    } else if v > high {
        255
    } else {
        let n = (v - low) as u32;
        let d = (high - low) as u32;
        assert((n as int) * 255 / (d as int) <= 255) by (nonlinear_arith)
            requires
                n <= d,
                d > 0,
        ;
        (n * 255 / d) as u8
    }
}

/// The stretch bounds of a channel histogram.
fn find_bounds(hist: &Vec<u64>, clip: u64) -> (r: (u8, u8))
    requires
        hist@.len() == 256,
    ensures
        r == level_bounds(hist@, clip as int),
{
    let mut low: usize = 0;
    let mut acc: u128 = 0;
    while low < 255
        invariant
            hist@.len() == 256,
            low <= 255,
            acc == count_below(hist@, low as int),
            acc <= clip,
            low_level(hist@, clip as int, 0) == low_level(hist@, clip as int, low as int),
        ensures
            low_level(hist@, clip as int, 0) == low as int,
        decreases 255 - low,
    {
        let next = acc + hist[low] as u128;
        if next > clip as u128 {
            break;
        }
        acc = next;
        low = low + 1;
    }
    let mut high: usize = 255;
    let mut acc: u128 = 0;
    while high > 0
        invariant
            hist@.len() == 256,
            high <= 255,
            acc == count_from(hist@, high as int + 1),
            acc <= clip,
            high_level(hist@, clip as int, 255) == high_level(hist@, clip as int, high as int),
        ensures
            high_level(hist@, clip as int, 255) == high as int,
        decreases high,
    {
        let next = acc + hist[high] as u128;
        if next > clip as u128 {
            break;
        }
        acc = next;
        high = high - 1;
    }
    if high < low {
        (0, 255)
    } else {
        (low as u8, high as u8)
    }
}

fn zero_histogram() -> (h: Vec<u64>)
    ensures
        h@.len() == 256,
        forall|v: int| 0 <= v < 256 ==> h@[v] == 0,
{
    let mut h: Vec<u64> = Vec::new();
    let mut i: usize = 0;
    while i < 256
        invariant
            i <= 256,
            h@.len() == i,
            forall|v: int| 0 <= v < i ==> h@[v] == 0,
        decreases 256 - i,
    {
        h.push(0u64);
        i = i + 1;
    }
    h
}

/// Adds the pixel `k` of `p` to the histogram of channel `c`, if visible.
proof fn lemma_level_count_step(p: Picture, c: int, v: int, k: int)
    requires
        0 <= k,
    ensures
        level_count(p, c, v, k + 1) == level_count(p, c, v, k) + if chan(p, k, 3) > 0 && chan(
            p,
            k,
            c,
        ) == v {
            1nat
        } else {
            0nat
        },
        opaque_count(p, k + 1) == opaque_count(p, k) + if chan(p, k, 3) > 0 {
            1nat
        } else {
            0nat
        },
{
}

proof fn lemma_counts_bounded(p: Picture, c: int, v: int, k: int)
    requires
        0 <= k,
    ensures
        level_count(p, c, v, k) <= k,
        opaque_count(p, k) <= k,
    decreases k,
{
    if k > 0 {
        lemma_counts_bounded(p, c, v, k - 1);
    }
}

/// Automatic levels: stretches each colour channel between bounds found after
/// ignoring 0.5% of the non-transparent pixels at each end of its histogram, so
/// that a few stray dark or bright pixels do not defeat the stretch.
pub fn auto_adjust(img: &Raster) -> (r: Raster)
    ensures
        is_auto_adjusted(img@, r@),
{
    img.check_well_sized();
    let ghost p = img@;
    let px = img.as_bytes();
    let len = px.len();
    let n = len / 4;
    let mut hist_r = zero_histogram();
    let mut hist_g = zero_histogram();
    let mut hist_b = zero_histogram();
    let mut total: u64 = 0;
    let mut k: usize = 0;
    while k < n
        invariant
            px@ == p.pixels,
            len == px@.len(),
            n == area(p.width, p.height),
            len == n * 4,
            k <= n,
            hist_r@.len() == 256,
            hist_g@.len() == 256,
            hist_b@.len() == 256,
            forall|v: int| 0 <= v < 256 ==> #[trigger] hist_r@[v] == level_count(p, 0, v, k as int),
            forall|v: int| 0 <= v < 256 ==> #[trigger] hist_g@[v] == level_count(p, 1, v, k as int),
            forall|v: int| 0 <= v < 256 ==> #[trigger] hist_b@[v] == level_count(p, 2, v, k as int),
            total == opaque_count(p, k as int),
        decreases n - k,
    {
        proof {
            assert forall|v: int| 0 <= v < 256 implies level_count(p, 0, v, k as int) <= k
                && level_count(p, 1, v, k as int) <= k && level_count(p, 2, v, k as int) <= k by {
                lemma_counts_bounded(p, 0, v, k as int);
                lemma_counts_bounded(p, 1, v, k as int);
                lemma_counts_bounded(p, 2, v, k as int);
            }
            lemma_counts_bounded(p, 0, 0, k as int);
        }
        let ghost (old_r, old_g, old_b) = (hist_r@, hist_g@, hist_b@);
        let a = px[4 * k + 3];
        if a > 0 {
            let r = px[4 * k] as usize;
            let g = px[4 * k + 1] as usize;
            let b = px[4 * k + 2] as usize;
            let x = hist_r[r] + 1;
            hist_r.set(r, x);
            let x = hist_g[g] + 1;
            hist_g.set(g, x);
            let x = hist_b[b] + 1;
            hist_b.set(b, x);
            total = total + 1;
        }
        proof {
            assert forall|v: int| 0 <= v < 256 implies #[trigger] hist_r@[v] == level_count(p, 0, v, k + 1) by {
                lemma_level_count_step(p, 0, v, k as int);
            }
            assert forall|v: int| 0 <= v < 256 implies #[trigger] hist_g@[v] == level_count(p, 1, v, k + 1) by {
                lemma_level_count_step(p, 1, v, k as int);
            }
            assert forall|v: int| 0 <= v < 256 implies #[trigger] hist_b@[v] == level_count(p, 2, v, k + 1) by {
                lemma_level_count_step(p, 2, v, k as int);
            }
            lemma_level_count_step(p, 0, 0, k as int);
        }
        k = k + 1;
    }
    if total == 0 {
        return img.duplicate();
    }
    proof {
        lemma_counts_bounded(p, 0, 0, n as int);
        assert(total <= n);
    }
    let clip = (total + 100) / 200;
    let (min_r, max_r) = find_bounds(&hist_r, clip);
    let (min_g, max_g) = find_bounds(&hist_g, clip);
    let (min_b, max_b) = find_bounds(&hist_b, clip);
    proof {
        assert(hist_r@ =~= histogram(p, 0));
        assert(hist_g@ =~= histogram(p, 1));
        assert(hist_b@ =~= histogram(p, 2));
    }
    let mut out: Vec<u8> = Vec::new();
    let mut k: usize = 0;
    while k < n
        invariant
            px@ == p.pixels,
            len == px@.len(),
            n == area(p.width, p.height),
            len == n * 4,
            k <= n,
            out@.len() == 4 * k,
            forall|j: int, c: int|
                0 <= j < k && 0 <= c < 4 ==> #[trigger] out@[4 * j + c] == if c == 0 {
                    stretched(chan(p, j, 0), min_r, max_r)
                } else if c == 1 {
                    stretched(chan(p, j, 1), min_g, max_g)
                } else if c == 2 {
                    stretched(chan(p, j, 2), min_b, max_b)
                } else {
                    chan(p, j, 3)
                },
        decreases n - k,
    {
        out.push(stretch(px[4 * k], min_r, max_r));
        out.push(stretch(px[4 * k + 1], min_g, max_g));
        out.push(stretch(px[4 * k + 2], min_b, max_b));
        out.push(px[4 * k + 3]);
        k = k + 1;
    }
    let r = img.with_pixels(out);
    proof {
        let clip_n = clip_count(total as nat) as int;
        assert(clip as int == clip_n);
        assert forall|j: int, c: int|
            0 <= j < area(p.width, p.height) && 0 <= c < 4 implies #[trigger] chan(r@, j, c) == if total == 0 || c == 3 {
                chan(p, j, c)
            } else {
                let b = level_bounds(histogram(p, c), clip_n);
                stretched(chan(p, j, c), b.0, b.1)
            } by {
            assert(out@[4 * j + c] == chan(r@, j, c));
        }
    }
    r
}

/// Stretching never reverses two values.
proof fn lemma_stretched_monotone(v1: u8, v2: u8, low: u8, high: u8)
    requires
        v1 <= v2,
    ensures
        stretched(v1, low, high) <= stretched(v2, low, high),
{
    if high > low && low <= v1 && v2 <= high {
        let d = (high - low) as int;
        let a = (v1 - low) as int;
        let b = (v2 - low) as int;
        assert(a * 255 / d <= b * 255 / d && b * 255 / d <= 255) by (nonlinear_arith)
            requires
                0 <= a <= b <= d,
                d > 0,
        {
            assert(a * 255 <= b * 255);
            assert(b * 255 <= d * 255);
        }
    } else if high > low && low <= v1 && v1 <= high {
        let d = (high - low) as int;
        let a = (v1 - low) as int;
        assert(a * 255 / d <= 255) by (nonlinear_arith)
            requires
                0 <= a <= d,
                d > 0,
        {
            assert(a * 255 <= d * 255);
        }
    } else if high > low && low <= v2 && v2 <= high {
        let d = (high - low) as int;
        let b = (v2 - low) as int;
        assert(b * 255 / d >= 0) by (nonlinear_arith)
            requires
                0 <= b <= d,
                d > 0,
        ;
    }
}

/// Automatic levels never reverses the order of two values of a colour
/// channel: a pixel no brighter than another in the source stays no brighter.
pub proof fn law_auto_adjust_keeps_order(p: Picture, q: Picture, j: int, k: int, c: int)
    requires
        is_auto_adjusted(p, q),
        0 <= j < area(p.width, p.height),
        0 <= k < area(p.width, p.height),
        0 <= c < 3,
        chan(p, j, c) <= chan(p, k, c),
    ensures
        chan(q, j, c) <= chan(q, k, c),
{
    let total = opaque_count(p, area(p.width, p.height));
    assert(chan(q, j, c) == if total == 0 || c == 3 {
        chan(p, j, c)
    } else {
        let b = level_bounds(histogram(p, c), clip_count(total) as int);
        stretched(chan(p, j, c), b.0, b.1)
    });
    assert(chan(q, k, c) == if total == 0 || c == 3 {
        chan(p, k, c)
    } else {
        let b = level_bounds(histogram(p, c), clip_count(total) as int);
        stretched(chan(p, k, c), b.0, b.1)
    });
    if total != 0 {
        let b = level_bounds(histogram(p, c), clip_count(total) as int);
        lemma_stretched_monotone(chan(p, j, c), chan(p, k, c), b.0, b.1);
    }
}

} // verus!
