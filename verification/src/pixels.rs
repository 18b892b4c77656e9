//! RGBA8 rasters and the geometric and colour operations that the `image`
//! crate performs on them.
use vstd::prelude::*;

verus! {

/// The abstract content of a raster: its size and its RGBA8 samples, row by row,
/// four samples per pixel.
pub struct Picture {
    pub width: u32,
    pub height: u32,
    pub pixels: Seq<u8>,
}

/// Number of pixels of a `width` x `height` picture.
pub open spec fn area(width: u32, height: u32) -> int {
    width as int * height as int
}

/// The samples fill the picture exactly.
pub open spec fn well_sized(p: Picture) -> bool {
    p.pixels.len() == area(p.width, p.height) * 4
}

/// Position in the sample sequence of channel `c` of pixel (`x`, `y`).
pub open spec fn sample_index(width: int, x: int, y: int, c: int) -> int {
    (y * width + x) * 4 + c
}

/// Channel `c` of pixel (`x`, `y`).
pub open spec fn sample(p: Picture, x: int, y: int, c: int) -> u8 {
    p.pixels[sample_index(p.width as int, x, y, c)]
}

/// Channel `c` of the `k`-th pixel in row-major order.
pub open spec fn chan(p: Picture, k: int, c: int) -> u8 {
    p.pixels[4 * k + c]
}

/// `q` is `p` turned a quarter turn clockwise.
pub open spec fn is_rotated90(p: Picture, q: Picture) -> bool {
    &&& q.width == p.height
    &&& q.height == p.width
    &&& well_sized(q)
    &&& forall|x: int, y: int, c: int|
        0 <= x < q.width && 0 <= y < q.height && 0 <= c < 4 ==> #[trigger] sample(q, x, y, c)
            == sample(p, y, p.height - 1 - x, c)
}

/// `q` is `p` turned half a turn.
pub open spec fn is_rotated180(p: Picture, q: Picture) -> bool {
    &&& q.width == p.width
    &&& q.height == p.height
    &&& well_sized(q)
    &&& forall|x: int, y: int, c: int|
        0 <= x < q.width && 0 <= y < q.height && 0 <= c < 4 ==> #[trigger] sample(q, x, y, c)
            == sample(p, p.width - 1 - x, p.height - 1 - y, c)
}

/// `q` is `p` turned a quarter turn counter-clockwise.
pub open spec fn is_rotated270(p: Picture, q: Picture) -> bool {
    &&& q.width == p.height
    &&& q.height == p.width
    &&& well_sized(q)
    &&& forall|x: int, y: int, c: int|
        0 <= x < q.width && 0 <= y < q.height && 0 <= c < 4 ==> #[trigger] sample(q, x, y, c)
            == sample(p, p.width - 1 - y, x, c)
}

/// `q` is `p` mirrored left to right.
pub open spec fn is_flipped_horizontally(p: Picture, q: Picture) -> bool {
    &&& q.width == p.width
    &&& q.height == p.height
    &&& well_sized(q)
    &&& forall|x: int, y: int, c: int|
        0 <= x < q.width && 0 <= y < q.height && 0 <= c < 4 ==> #[trigger] sample(q, x, y, c)
            == sample(p, p.width - 1 - x, y, c)
}

/// `q` is `p` mirrored top to bottom.
pub open spec fn is_flipped_vertically(p: Picture, q: Picture) -> bool {
    &&& q.width == p.width
    &&& q.height == p.height
    &&& well_sized(q)
    &&& forall|x: int, y: int, c: int|
        0 <= x < q.width && 0 <= y < q.height && 0 <= c < 4 ==> #[trigger] sample(q, x, y, c)
            == sample(p, x, p.height - 1 - y, c)
}

/// `q` is the `width` x `height` part of `p` whose top left corner is (`x0`, `y0`).
pub open spec fn is_cut_out(p: Picture, x0: int, y0: int, width: u32, height: u32, q: Picture) -> bool {
    &&& q.width == width
    &&& q.height == height
    &&& well_sized(q)
    &&& forall|x: int, y: int, c: int|
        0 <= x < q.width && 0 <= y < q.height && 0 <= c < 4 ==> #[trigger] sample(q, x, y, c)
            == sample(p, x0 + x, y0 + y, c)
}

/// `q` has the colour channels of `p` inverted and its alpha kept.
pub open spec fn is_inverted(p: Picture, q: Picture) -> bool {
    &&& q.width == p.width
    &&& q.height == p.height
    &&& q.pixels.len() == p.pixels.len()
    &&& forall|k: int, c: int|
        0 <= k < area(p.width, p.height) && 0 <= c < 4 ==> #[trigger] chan(q, k, c) == if c
            < 3 {
            (255 - chan(p, k, c)) as u8
        } else {
            chan(p, k, c)
        }
}

/// The sRGB luma of a colour, in whole steps, as the `image` crate computes it.
pub open spec fn luma(r: u8, g: u8, b: u8) -> u8 {
    ((2126 * r + 7152 * g + 722 * b) / 10000) as u8
}

/// `q` is the grayscale version of `p`: every colour channel holds the luma of
/// the pixel, and alpha is kept.
pub open spec fn is_grayscaled(p: Picture, q: Picture) -> bool {
    &&& q.width == p.width
    &&& q.height == p.height
    &&& q.pixels.len() == p.pixels.len()
    &&& forall|k: int, c: int|
        0 <= k < area(p.width, p.height) && 0 <= c < 4 ==> #[trigger] chan(q, k, c) == if c
            < 3 {
            luma(chan(p, k, 0), chan(p, k, 1), chan(p, k, 2))
        } else {
            chan(p, k, 3)
        }
}

/// The picture that a width, a height and a sample sequence describe.
pub open spec fn picture(width: u32, height: u32, pixels: Seq<u8>) -> Picture {
    Picture { width, height, pixels }
}

/// `image::imageops::rotate90`: every source pixel (x, y) lands on
/// (height - 1 - y, x) of a height x width image.
#[verifier::external_body]
fn rgba_rotate90(width: u32, height: u32, pixels: &[u8]) -> (out: Vec<u8>)
    requires
        pixels@.len() == area(width, height) * 4,
    ensures
        is_rotated90(picture(width, height, pixels@), picture(height, width, out@)),
{
    let buffer = image::ImageBuffer::<image::Rgba<u8>, &[u8]>::from_raw(width, height, pixels).unwrap();
    image::imageops::rotate90(&buffer).into_raw()
}

/// `image::imageops::rotate180`: every source pixel (x, y) lands on
/// (width - 1 - x, height - 1 - y).
#[verifier::external_body]
fn rgba_rotate180(width: u32, height: u32, pixels: &[u8]) -> (out: Vec<u8>)
    requires
        pixels@.len() == area(width, height) * 4,
    ensures
        is_rotated180(picture(width, height, pixels@), picture(width, height, out@)),
{
    let buffer = image::ImageBuffer::<image::Rgba<u8>, &[u8]>::from_raw(width, height, pixels).unwrap();
    image::imageops::rotate180(&buffer).into_raw()
}

/// `image::imageops::rotate270`: every source pixel (x, y) lands on
/// (y, width - 1 - x) of a height x width image.
#[verifier::external_body]
fn rgba_rotate270(width: u32, height: u32, pixels: &[u8]) -> (out: Vec<u8>)
    requires
        pixels@.len() == area(width, height) * 4,
    ensures
        is_rotated270(picture(width, height, pixels@), picture(height, width, out@)),
{
    let buffer = image::ImageBuffer::<image::Rgba<u8>, &[u8]>::from_raw(width, height, pixels).unwrap();
    image::imageops::rotate270(&buffer).into_raw()
}

/// `image::imageops::flip_horizontal`: every source pixel (x, y) lands on
/// (width - 1 - x, y).
#[verifier::external_body]
fn rgba_flip_horizontal(width: u32, height: u32, pixels: &[u8]) -> (out: Vec<u8>)
    requires
        pixels@.len() == area(width, height) * 4,
    ensures
        is_flipped_horizontally(picture(width, height, pixels@), picture(width, height, out@)),
{
    let buffer = image::ImageBuffer::<image::Rgba<u8>, &[u8]>::from_raw(width, height, pixels).unwrap();
    image::imageops::flip_horizontal(&buffer).into_raw()
}

/// `image::imageops::flip_vertical`: every source pixel (x, y) lands on
/// (x, height - 1 - y).
#[verifier::external_body]
fn rgba_flip_vertical(width: u32, height: u32, pixels: &[u8]) -> (out: Vec<u8>)
    requires
        pixels@.len() == area(width, height) * 4,
    ensures
        is_flipped_vertically(picture(width, height, pixels@), picture(width, height, out@)),
{
    let buffer = image::ImageBuffer::<image::Rgba<u8>, &[u8]>::from_raw(width, height, pixels).unwrap();
    image::imageops::flip_vertical(&buffer).into_raw()
}

/// `image::imageops::crop_imm(..).to_image()` on a region inside the image:
/// pixel (x, y) of the result is pixel (x0 + x, y0 + y) of the source.
#[verifier::external_body]
fn rgba_crop(width: u32, height: u32, pixels: &[u8], x0: u32, y0: u32, w: u32, h: u32) -> (out: Vec<u8>)
    requires
        pixels@.len() == area(width, height) * 4,
        x0 as int + w as int <= width,
        y0 as int + h as int <= height,
    ensures
        is_cut_out(picture(width, height, pixels@), x0 as int, y0 as int, w, h, picture(w, h, out@)),
{
    let buffer = image::RgbaImage::from_raw(width, height, pixels.to_vec()).unwrap();
    image::imageops::crop_imm(&buffer, x0, y0, w, h).to_image().into_raw()
}

/// `image::imageops::invert`: colour channels become 255 minus themselves,
/// alpha is kept.
#[verifier::external_body]
fn rgba_invert(raster: &mut Raster)
    ensures
        is_inverted(old(raster)@, final(raster)@),
{
    let (width, height) = (raster.width, raster.height);
    let mut buffer = image::ImageBuffer::<image::Rgba<u8>, &mut [u8]>::from_raw(width, height, raster.pixels.as_mut_slice()).unwrap();
    image::imageops::invert(&mut buffer);
}

/// `image::imageops::grayscale_alpha`: two samples per pixel, the luma of its
/// colour and its alpha.
#[verifier::external_body]
fn rgba_grayscale_alpha(width: u32, height: u32, pixels: &[u8]) -> (out: Vec<u8>)
    requires
        pixels@.len() == area(width, height) * 4,
    ensures
        out@.len() == area(width, height) * 2,
        forall|k: int|
            0 <= k < area(width, height) ==> {
                &&& #[trigger] out@[2 * k] == luma(pixels@[4 * k], pixels@[4 * k + 1], pixels@[4 * k + 2])
                &&& out@[2 * k + 1] == pixels@[4 * k + 3]
            },
{
    let buffer = image::ImageBuffer::<image::Rgba<u8>, &[u8]>::from_raw(width, height, pixels).unwrap();
    image::imageops::grayscale_alpha(&buffer).into_raw()
}

/// Every pixel of `p` has the value `v` in channel `c`.
pub open spec fn channel_constant(p: Picture, c: int, v: u8) -> bool {
    forall|k: int| 0 <= k < area(p.width, p.height) ==> #[trigger] chan(p, k, c) == v
}

/// A channel that holds one value all over the non-empty picture `p` holds the
/// same value all over `q`, when no side of `p` exceeds 1024 pixels: resampling
/// then keeps a flat colour, and an opaque image opaque. (Each output sample is
/// a normalised weighted sum over at most one side's pixels, in single
/// precision; up to 1024 terms per pass its rounding error stays far below half
/// a step. With many thousands of terms it need not.)
pub open spec fn keeps_flat_channels(p: Picture, q: Picture) -> bool {
    area(p.width, p.height) > 0 && p.width <= 1024 && p.height <= 1024 ==> forall|c: int, v: u8|
        0 <= c < 4 && #[trigger] channel_constant(p, c, v) ==> channel_constant(q, c, v)
}

/// The size that `image::DynamicImage::resize` picks for a `width` x `height`
/// image to fit within `nwidth` x `nheight` (its `resize_dimensions`, computed
/// in double precision).
pub uninterp spec fn fitted_size(width: u32, height: u32, nwidth: u32, nheight: u32) -> (u32, u32);

/// `ow` x `oh` fills one bound and keeps the proportions of `width` x `height`
/// on the other side to within one pixel.
pub open spec fn fits_proportionally(width: u32, height: u32, nwidth: u32, nheight: u32, ow: u32, oh: u32) -> bool {
    ||| ow == nwidth && -(width as int) <= oh * width - height * nwidth <= width
    ||| oh == nheight && -(height as int) <= ow * height - width * nheight <= height
}

/// `ow` x `oh` fills one bound and keeps the proportions of `width` x `height`
/// on the other side to within half a pixel, or is one pixel on that side
/// where the proportional size would round to nothing.
pub open spec fn fits_closely(width: u32, height: u32, nwidth: u32, nheight: u32, ow: u32, oh: u32) -> bool {
    ||| ow == nwidth && (-(width as int) <= 2 * (oh * width - height * nwidth) <= width || (oh == 1 && 2
        * height * nwidth <= width))
    ||| oh == nheight && (-(height as int) <= 2 * (ow * height - width * nheight) <= height || (ow == 1 && 2
        * width * nheight <= height))
}

/// The products of sides that `fits_closely` needs small enough for double
/// precision to round correctly.
pub open spec fn moderate_sides(width: u32, height: u32, nwidth: u32, nheight: u32) -> bool {
    height * nwidth <= 0x100_0000_0000 && width * nheight <= 0x100_0000_0000
}

/// `image::imageops::resize` with the Lanczos3 filter to exactly
/// `nwidth` x `nheight`. The resampled values depend on the platform's `sinf`
/// and are not stated; the weights of every output pixel are normalised to sum
/// to one, so a channel that is flat over a source of at most 1024 pixels a
/// side stays flat; a request for the current size gives back the same samples.
#[verifier::external_body]
fn rgba_resize_exact(width: u32, height: u32, pixels: &[u8], nwidth: u32, nheight: u32) -> (out: Vec<u8>)
    requires
        pixels@.len() == area(width, height) * 4,
        area(nwidth, nheight) * 4 <= isize::MAX,
    ensures
        out@.len() == area(nwidth, nheight) * 4,
        nwidth == width && nheight == height ==> out@ == pixels@,
        keeps_flat_channels(picture(width, height, pixels@), picture(nwidth, nheight, out@)),
{
    let buffer = image::ImageBuffer::<image::Rgba<u8>, &[u8]>::from_raw(width, height, pixels).unwrap();
    image::imageops::resize(&buffer, nwidth, nheight, image::imageops::FilterType::Lanczos3).into_raw()
}

/// `image::DynamicImage::resize` with the Lanczos3 filter: the image keeps its
/// proportions and is scaled to fit within `nwidth` x `nheight`. The chosen size
/// is `fitted_size`, at least one pixel each way, within the bounds, filling one
/// of them and keeping the proportions on the other to within a pixel (half a
/// pixel when the sides are moderate); the
/// resampled values are not stated beyond flat channels of a source of at most
/// 1024 pixels a side staying flat; a request
/// for the current size gives back the same samples.
#[verifier::external_body]
fn rgba_resize_to_fit(width: u32, height: u32, pixels: &[u8], nwidth: u32, nheight: u32) -> (out: (u32, u32, Vec<u8>))
    requires
        pixels@.len() == area(width, height) * 4,
        width > 0,
        height > 0,
        nwidth > 0,
        nheight > 0,
        area(nwidth, nheight) * 4 <= isize::MAX,
    ensures
        (out.0, out.1) == fitted_size(width, height, nwidth, nheight),
        1 <= out.0 <= nwidth,
        1 <= out.1 <= nheight,
        fits_proportionally(width, height, nwidth, nheight, out.0, out.1),
        moderate_sides(width, height, nwidth, nheight) ==> fits_closely(width, height, nwidth, nheight, out.0, out.1),
        out.2@.len() == area(out.0, out.1) * 4,
        nwidth == width && nheight == height ==> out.0 == width && out.1 == height && out.2@ == pixels@,
        keeps_flat_channels(picture(width, height, pixels@), picture(out.0, out.1, out.2@)),
{
    let buffer = image::RgbaImage::from_raw(width, height, pixels.to_vec()).unwrap();
    let fitted = image::DynamicImage::ImageRgba8(buffer).resize(nwidth, nheight, image::imageops::FilterType::Lanczos3).into_rgba8();
    (fitted.width(), fitted.height(), fitted.into_raw())
}

/// An RGBA8 image whose samples always fill it exactly.
pub struct Raster {
    width: u32,
    height: u32,
    pixels: Vec<u8>,
}

impl View for Raster {
    type V = Picture;

    closed spec fn view(&self) -> Picture {
        Picture { width: self.width, height: self.height, pixels: self.pixels@ }
    }
}

impl Raster {
    #[verifier::type_invariant]
    spec fn samples_fill_image(self) -> bool {
        self.pixels@.len() == area(self.width, self.height) * 4
    }

    /// Every raster is well sized.
    pub fn check_well_sized(&self)
        ensures
            well_sized(self@),
    {
        proof {
            use_type_invariant(self);
        }
    }

    /// Builds a raster from row-major RGBA8 samples; `None` unless they fill
    /// the image exactly.
    pub fn from_raw(width: u32, height: u32, pixels: Vec<u8>) -> (r: Option<Raster>)
        ensures
            r is Some <==> pixels@.len() == area(width, height) * 4,
            r matches Some(img) ==> img@ == (Picture { width, height, pixels: pixels@ }),
    {
        let w = width as u128;
        let h = height as u128;
        assert(w * h * 4 <= u128::MAX) by (nonlinear_arith)
            requires
                w <= u32::MAX,
                h <= u32::MAX,
        ;
        if (pixels.len() as u128) == w * h * 4 {
            Some(Raster { width, height, pixels })
        } else {
            None
        }
    }

    /// A fully transparent black image.
    pub fn new(width: u32, height: u32) -> (r: Raster)
        requires
            area(width, height) * 4 <= usize::MAX,
        ensures
            r@.width == width,
            r@.height == height,
            r@.pixels == Seq::new((area(width, height) * 4) as nat, |i: int| 0u8),
    {
        let n = (width as usize) * (height as usize) * 4;
        let mut pixels: Vec<u8> = Vec::new();
        let mut i: usize = 0;
        while i < n
            invariant
                i <= n,
                pixels@.len() == i,
                forall|j: int| 0 <= j < i ==> pixels@[j] == 0u8,
            decreases n - i,
        {
            pixels.push(0u8);
            i = i + 1;
        }
        let r = Raster { width, height, pixels };
        assert(r@.pixels =~= Seq::new((area(width, height) * 4) as nat, |i: int| 0u8));
        r
    }

    pub fn width(&self) -> (r: u32)
        ensures
            r == self@.width,
    {
        self.width
    }

    pub fn height(&self) -> (r: u32)
        ensures
            r == self@.height,
    {
        self.height
    }

    /// The row-major RGBA8 samples.
    pub fn as_bytes(&self) -> (r: &[u8])
        ensures
            r@ == self@.pixels,
    {
        self.pixels.as_slice()
    }

    /// Gives up the samples.
    pub fn into_raw(self) -> (r: Vec<u8>)
        ensures
            r@ == self@.pixels,
    {
        self.pixels
    }

    /// The four channels of pixel (`x`, `y`).
    pub fn get_pixel(&self, x: u32, y: u32) -> (r: [u8; 4])
        requires
            x < self@.width,
            y < self@.height,
        ensures
            forall|c: int| 0 <= c < 4 ==> r@[c] == sample(self@, x as int, y as int, c),
    {
        let len = self.pixels.len();
        proof {
            use_type_invariant(self);
            lemma_sample_in_bounds(self@.width as int, self@.height as int, x as int, y as int, 3);
            assert(self.pixels@.len() == self.width as int * self.height as int * 4);
            assert((y as int) * (self.width as int) + (x as int) < (self.width as int) * (self.height as int));
            assert(0 <= (y as int) * (self.width as int));
        }
        let i = ((y as usize) * (self.width as usize) + (x as usize)) * 4;
        [self.pixels[i], self.pixels[i + 1], self.pixels[i + 2], self.pixels[i + 3]]
    }

    /// The image turned a quarter turn clockwise.
    pub fn rotate90(&self) -> (r: Raster)
        ensures
            is_rotated90(self@, r@),
    {
        proof {
            use_type_invariant(self);
        }
        let out = rgba_rotate90(self.width, self.height, self.pixels.as_slice());
        Raster { width: self.height, height: self.width, pixels: out }
    }

    /// The image turned half a turn.
    pub fn rotate180(&self) -> (r: Raster)
        ensures
            is_rotated180(self@, r@),
    {
        proof {
            use_type_invariant(self);
        }
        let out = rgba_rotate180(self.width, self.height, self.pixels.as_slice());
        Raster { width: self.width, height: self.height, pixels: out }
    }

    /// The image turned a quarter turn counter-clockwise.
    pub fn rotate270(&self) -> (r: Raster)
        ensures
            is_rotated270(self@, r@),
    {
        proof {
            use_type_invariant(self);
        }
        let out = rgba_rotate270(self.width, self.height, self.pixels.as_slice());
        Raster { width: self.height, height: self.width, pixels: out }
    }

    /// The image mirrored left to right.
    pub fn fliph(&self) -> (r: Raster)
        ensures
            is_flipped_horizontally(self@, r@),
    {
        proof {
            use_type_invariant(self);
        }
        let out = rgba_flip_horizontal(self.width, self.height, self.pixels.as_slice());
        Raster { width: self.width, height: self.height, pixels: out }
    }

    /// The image mirrored top to bottom.
    pub fn flipv(&self) -> (r: Raster)
        ensures
            is_flipped_vertically(self@, r@),
    {
        proof {
            use_type_invariant(self);
        }
        let out = rgba_flip_vertical(self.width, self.height, self.pixels.as_slice());
        Raster { width: self.width, height: self.height, pixels: out }
    }

    /// Inverts the colour channels in place, keeping alpha.
    pub fn invert(&mut self)
        ensures
            is_inverted(old(self)@, final(self)@),
    {
        rgba_invert(self);
    }

    /// The grayscale version of the image, alpha kept.
    pub fn grayscale(&self) -> (r: Raster)
        ensures
            is_grayscaled(self@, r@),
    {
        proof {
            use_type_invariant(self);
        }
        let gray = rgba_grayscale_alpha(self.width, self.height, self.pixels.as_slice());
        let len = self.pixels.len();
        let n = len / 4;
        let mut out: Vec<u8> = Vec::new();
        let mut k: usize = 0;
        while k < n
            invariant
                n == area(self@.width, self@.height),
                n * 4 == len,
                gray@.len() == n * 2,
                self@.pixels.len() == n * 4,
                k <= n,
                out@.len() == 4 * k,
                forall|j: int, c: int|
                    0 <= j < k && 0 <= c < 4 ==> #[trigger] out@[4 * j + c] == if c < 3 {
                        gray@[2 * j]
                    } else {
                        gray@[2 * j + 1]
                    },
            decreases n - k,
        {
            let g = gray[2 * k];
            let a = gray[2 * k + 1];
            out.push(g);
            out.push(g);
            out.push(g);
            out.push(a);
            k = k + 1;
        }
        let r = Raster { width: self.width, height: self.height, pixels: out };
        proof {
            assert forall|j: int, c: int|
                0 <= j < area(self@.width, self@.height) && 0 <= c < 4 implies #[trigger] chan(r@, j, c)
                == if c < 3 {
                    luma(chan(self@, j, 0), chan(self@, j, 1), chan(self@, j, 2))
                } else {
                    chan(self@, j, 3)
                } by {
                assert(out@[4 * j + c] == chan(r@, j, c));
                assert(gray@[2 * j] == luma(self@.pixels[4 * j], self@.pixels[4 * j + 1], self@.pixels[4 * j + 2]));
                assert(gray@[2 * j + 1] == self@.pixels[4 * j + 3]);
                assert(chan(self@, j, 0) == self@.pixels[4 * j]);
            }
        }
        r
    }

    /// The `w` x `h` part of the image whose top left corner is (`x`, `y`);
    /// the region must lie inside the image.
    pub fn crop_imm(&self, x: u32, y: u32, w: u32, h: u32) -> (r: Raster)
        requires
            x as int + w as int <= self@.width,
            y as int + h as int <= self@.height,
        ensures
            is_cut_out(self@, x as int, y as int, w, h, r@),
    {
        proof {
            use_type_invariant(self);
        }
        let out = rgba_crop(self.width, self.height, self.pixels.as_slice(), x, y, w, h);
        Raster { width: w, height: h, pixels: out }
    }

    /// The image resampled (Lanczos3) to exactly `nwidth` x `nheight`.
    pub fn resize_exact(&self, nwidth: u32, nheight: u32) -> (r: Raster)
        requires
            area(nwidth, nheight) * 4 <= isize::MAX,
        ensures
            r@.width == nwidth,
            r@.height == nheight,
            well_sized(r@),
            nwidth == self@.width && nheight == self@.height ==> r@ == self@,
            keeps_flat_channels(self@, r@),
    {
        proof {
            use_type_invariant(self);
        }
        let out = rgba_resize_exact(self.width, self.height, self.pixels.as_slice(), nwidth, nheight);
        Raster { width: nwidth, height: nheight, pixels: out }
    }

    /// The image resampled (Lanczos3) to the largest size with its proportions
    /// that fits within `nwidth` x `nheight`.
    pub fn resize(&self, nwidth: u32, nheight: u32) -> (r: Raster)
        requires
            self@.width > 0,
            self@.height > 0,
            nwidth > 0,
            nheight > 0,
            area(nwidth, nheight) * 4 <= isize::MAX,
        ensures
            (r@.width, r@.height) == fitted_size(self@.width, self@.height, nwidth, nheight),
            1 <= r@.width <= nwidth,
            1 <= r@.height <= nheight,
            fits_proportionally(self@.width, self@.height, nwidth, nheight, r@.width, r@.height),
            moderate_sides(self@.width, self@.height, nwidth, nheight) ==> fits_closely(
                self@.width,
                self@.height,
                nwidth,
                nheight,
                r@.width,
                r@.height,
            ),
            well_sized(r@),
            nwidth == self@.width && nheight == self@.height ==> r@ == self@,
            keeps_flat_channels(self@, r@),
    {
        proof {
            use_type_invariant(self);
        }
        let (w, h, out) = rgba_resize_to_fit(self.width, self.height, self.pixels.as_slice(), nwidth, nheight);
        Raster { width: w, height: h, pixels: out }
    }

    /// A copy of the image.
    pub fn duplicate(&self) -> (r: Raster)
        ensures
            r@ == self@,
    {
        proof {
            use_type_invariant(self);
        }
        let pixels = self.pixels.clone();
        assert(pixels@ =~= self.pixels@);
        Raster { width: self.width, height: self.height, pixels }
    }

    /// An image of the same size with other samples.
    pub fn with_pixels(&self, pixels: Vec<u8>) -> (r: Raster)
        requires
            pixels@.len() == self@.pixels.len(),
        ensures
            r@ == (Picture { width: self@.width, height: self@.height, pixels: pixels@ }),
    {
        proof {
            use_type_invariant(self);
        }
        Raster { width: self.width, height: self.height, pixels }
    }

    /// Number of bytes the samples take.
    pub fn byte_len(&self) -> (r: usize)
        ensures
            r == self@.pixels.len(),
    {
        self.pixels.len()
    }
}

/// A sample of an in-bounds pixel lies inside the sample sequence.
pub proof fn lemma_sample_in_bounds(w: int, h: int, x: int, y: int, c: int)
    requires
        0 <= x < w,
        0 <= y < h,
        0 <= c < 4,
    ensures
        0 <= sample_index(w, x, y, c) < w * h * 4,
        0 <= y * w + x < w * h,
{
    assert(0 <= y * w) by (nonlinear_arith)
        requires
            0 <= y,
            0 <= w,
    ;
    assert(y * w + x < w * h) by (nonlinear_arith)
        requires
            0 <= x < w,
            0 <= y < h,
    ;
}

} // verus!
