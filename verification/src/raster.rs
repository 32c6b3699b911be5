//! The pixel source: a dense grid of RGBA samples that is never changed
//! once it has been built.

use vstd::prelude::*;

verus! {

/// Number of samples stored for each pixel: red, green, blue, alpha.
pub const CHANNELS: usize = 4;

/// The colour of one pixel, without its alpha sample.
#[derive(Clone, Copy, Debug, PartialEq, Eq, Structural)]
pub struct Rgb {
    pub r: u8,
    pub g: u8,
    pub b: u8,
}

/// Mathematical model of an image: its dimensions and its samples in row-major
/// order, four for each pixel.
pub struct ImageView {
    pub width: nat,
    pub height: nat,
    pub samples: Seq<u8>,
}

impl ImageView {
    /// The samples fill the grid exactly.
    pub open spec fn wf(&self) -> bool {
        self.samples.len() == self.width * self.height * 4
    }

    /// Whether `(x, y)` names a pixel of the image.
    pub open spec fn in_bounds(&self, x: int, y: int) -> bool {
        0 <= x < self.width && 0 <= y < self.height
    }

    /// Position in `samples` of the red sample of pixel `(x, y)`.
    pub open spec fn offset(&self, x: int, y: int) -> int {
        (y * self.width + x) * 4
    }

    /// Colour of pixel `(x, y)`. The alpha sample is not part of it.
    pub open spec fn pixel(&self, x: int, y: int) -> Rgb
        recommends
            self.wf(),
            self.in_bounds(x, y),
    {
        Rgb {
            r: self.samples[self.offset(x, y)],
            g: self.samples[self.offset(x, y) + 1],
            b: self.samples[self.offset(x, y) + 2],
        }
    }
}

/// The four samples of an in-bounds pixel lie inside the sample sequence.
pub proof fn lemma_offset_in_range(view: ImageView, x: int, y: int)
    requires
        view.wf(),
        view.in_bounds(x, y),
    ensures
        0 <= view.offset(x, y),
        view.offset(x, y) + 3 < view.samples.len(),
{
    let w = view.width as int;
    let h = view.height as int;
    assert(0 <= y * w + x < w * h) by (nonlinear_arith)
        requires
            0 <= x < w,
            0 <= y < h,
    ;
    assert(w * h * 4 == view.width * view.height * 4);
}

/// Largest dimension, of the source or of the target, that `Image::resize`
/// takes on. Up to here the single-precision arithmetic of the resampler
/// still places every sampling window over at least one source pixel.
pub const MAX_RESIZE_DIMENSION: u32 = 1_048_576;

/// Whether an image of `width` by `height` pixels can be resampled to
/// `nwidth` by `nheight` pixels: the source is not empty, no dimension
/// passes `MAX_RESIZE_DIMENSION`, and both the intermediate grid and the
/// result can be addressed.
pub open spec fn resize_admits(width: nat, height: nat, nwidth: nat, nheight: nat) -> bool {
    &&& 1 <= width <= MAX_RESIZE_DIMENSION
    &&& 1 <= height <= MAX_RESIZE_DIMENSION
    &&& nwidth <= MAX_RESIZE_DIMENSION
    &&& nheight <= MAX_RESIZE_DIMENSION
    &&& width * nheight * 4 <= usize::MAX
    &&& nwidth * nheight * 4 <= usize::MAX
}

/// The samples of an image of `width` by `height` pixels after it has been
/// resampled with a triangle filter to `nwidth` by `nheight` pixels.
pub uninterp spec fn triangle_resampled(
    samples: Seq<u8>,
    width: nat,
    height: nat,
    nwidth: nat,
    nheight: nat,
) -> Seq<u8>;

/// Calls `image::imageops::resize` with `FilterType::Triangle` on an RGBA
/// grid of 8-bit samples.
///
/// Taken on trust: the result is the grid of `nwidth` by `nheight` pixels,
/// four samples each, that the resampler computes from the source samples
/// and the four dimensions alone. The call does not panic on what
/// `resize_admits` lets through: the lengths of both grids it allocates fit
/// in `usize`, every pixel it reads lies in the source, and every sampling
/// window holds a source pixel of positive weight, so that no sum of weights
/// it divides by is zero. (Memory that the machine cannot give ends the
/// process, as it does for any `Vec`.)
#[verifier::external_body]
fn resample_triangle(width: u32, height: u32, samples: &Vec<u8>, nwidth: u32, nheight: u32) -> (out:
    Vec<u8>)
    requires
        samples@.len() == width as nat * height as nat * 4,
        resize_admits(width as nat, height as nat, nwidth as nat, nheight as nat),
    ensures
        out@ == triangle_resampled(
            samples@,
            width as nat,
            height as nat,
            nwidth as nat,
            nheight as nat,
        ),
        out@.len() == nwidth as nat * nheight as nat * 4,
{
    let source: image::ImageBuffer<image::Rgba<u8>, &[u8]> =
        image::ImageBuffer::from_raw(width, height, samples.as_slice()).unwrap();
    image::imageops::resize(&source, nwidth, nheight, image::FilterType::Triangle).into_raw()
}

/// A decoded image of fixed dimensions.
pub struct Image {
    width: u32,
    height: u32,
    samples: Vec<u8>,
}

impl View for Image {
    type V = ImageView;

    closed spec fn view(&self) -> ImageView {
        ImageView { width: self.width as nat, height: self.height as nat, samples: self.samples@ }
    }
}

impl Image {
    #[verifier::type_invariant]
    spec fn inv(&self) -> bool {
        self@.wf()
    }

    /// The dimensions of an image fit in 32 bits.
    pub proof fn lemma_dimensions_bounded(&self)
        ensures
            self@.width <= u32::MAX,
            self@.height <= u32::MAX,
    {
    }

    /// Builds an image from its dimensions and its samples in row-major
    /// order, four (red, green, blue, alpha) for each pixel. Fails when the
    /// number of samples is not `width * height * 4`.
    pub fn from_rgba(width: u32, height: u32, samples: Vec<u8>) -> (image: Option<Image>)
        ensures
            image is Some <==> samples@.len() == width as nat * height as nat * 4,
            image matches Some(img) ==> img@ == (ImageView {
                width: width as nat,
                height: height as nat,
                samples: samples@,
            }) && img@.wf(),
    {
        assert(width as nat * height as nat <= u64::MAX) by (nonlinear_arith)
            requires
                width <= u32::MAX,
                height <= u32::MAX,
        ;
        let pixels: u64 = width as u64 * height as u64;
        let given: usize = samples.len();
        if pixels > (usize::MAX / CHANNELS) as u64 {
            return None;
        }
        if given != pixels as usize * CHANNELS {
            return None;
        }
        Some(Image { width, height, samples })
    }

    /// Width of the image in pixels.
    pub fn width(&self) -> (w: u32)
        ensures
            w == self@.width,
    {
        self.width
    }

    /// Height of the image in pixels.
    pub fn height(&self) -> (h: u32)
        ensures
            h == self@.height,
    {
        self.height
    }

    /// The samples in row-major order, four for each pixel.
    pub fn as_raw(&self) -> (raw: &[u8])
        ensures
            raw@ == self@.samples,
            self@.wf(),
    {
        proof {
            use_type_invariant(self);
        }
        self.samples.as_slice()
    }

    /// Resamples the image with a triangle filter to `nwidth` by `nheight`
    /// pixels. Fails exactly when `resize_admits` does not hold.
    pub fn resize(&self, nwidth: u32, nheight: u32) -> (resized: Option<Image>)
        ensures
            resized is Some <==> resize_admits(
                self@.width,
                self@.height,
                nwidth as nat,
                nheight as nat,
            ),
            resized matches Some(img) ==> img@ == (ImageView {
                width: nwidth as nat,
                height: nheight as nat,
                samples: triangle_resampled(
                    self@.samples,
                    self@.width,
                    self@.height,
                    nwidth as nat,
                    nheight as nat,
                ),
            }) && img@.wf(),
    {
        proof {
            use_type_invariant(self);
        }
        if self.width == 0 || self.height == 0 || self.width > MAX_RESIZE_DIMENSION || self.height
            > MAX_RESIZE_DIMENSION || nwidth > MAX_RESIZE_DIMENSION || nheight
            > MAX_RESIZE_DIMENSION {
            return None;
        }
        let limit: u64 = (usize::MAX / CHANNELS) as u64;
        assert(self.width as nat * nheight as nat <= 0x100_0000_0000 && nwidth as nat
            * nheight as nat <= 0x100_0000_0000) by (nonlinear_arith)
            requires
                self.width <= 0x10_0000,
                nwidth <= 0x10_0000,
                nheight <= 0x10_0000,
        ;
        if self.width as u64 * nheight as u64 > limit || nwidth as u64 * nheight as u64 > limit {
            return None;
        }
        let samples = resample_triangle(self.width, self.height, &self.samples, nwidth, nheight);
        Some(Image { width: nwidth, height: nheight, samples })
    }

    /// Colour of the pixel at `(x, y)`.
    pub fn get_pixel(&self, x: u32, y: u32) -> (color: Rgb)
        requires
            self@.in_bounds(x as int, y as int),
        ensures
            color == self@.pixel(x as int, y as int),
    {
        proof {
            use_type_invariant(self);
            lemma_offset_in_range(self@, x as int, y as int);
            assert(0 <= y * self.width <= y * self.width + x) by (nonlinear_arith)
                requires
                    0 <= y,
                    0 <= x,
                    0 <= self.width,
            ;
            assert(self.samples.len() == self.samples@.len());
        }
        let row: usize = y as usize * self.width as usize;
        let base: usize = (row + x as usize) * CHANNELS;
        Rgb { r: self.samples[base], g: self.samples[base + 1], b: self.samples[base + 2] }
    }
}

} // verus!
