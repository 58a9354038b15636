//! RGBA pixels and pixel buffers.
//!
//! Colours are four bytes: red, green, blue and alpha. Compositing,
//! resampling, encoding and the storage of images are the `image` crate's;
//! this module states what the rest of the library relies on.

use vstd::prelude::*;

verus! {

/// An image of RGBA pixels with 8-bit channels, stored row by row from the
/// top. A buffer is only ever made by this module, from its dimensions, so
/// its storage holds exactly its pixels.
#[verifier::external_body]
pub struct PixelBuffer {
    inner: image::RgbaImage,
}

/// Resampling filter used when an image is resized.
#[derive(Clone, Copy, Debug, PartialEq, Eq, Structural)]
pub enum Filter {
    /// Nearest neighbour.
    Nearest,
    /// Linear (triangle) filter.
    Triangle,
}

/// Width of a buffer in pixels.
pub uninterp spec fn buffer_width(buffer: PixelBuffer) -> nat;

/// Height of a buffer in pixels.
pub uninterp spec fn buffer_height(buffer: PixelBuffer) -> nat;

/// The pixels of a buffer, row by row from the top, each as its four channels.
pub uninterp spec fn buffer_pixels(buffer: PixelBuffer) -> Seq<Seq<u8>>;

/// What `image` computes when it composites a colour whose alpha is neither
/// zero nor full over another: the source-over formula, evaluated in single
/// precision and cast back to bytes.
pub uninterp spec fn composite(base: Seq<u8>, over: Seq<u8>) -> Seq<u8>;

/// The pixels that `image` computes when it resamples an image of the given
/// pixels and dimensions to new dimensions with a filter.
pub uninterp spec fn resampled(
    pixels: Seq<Seq<u8>>,
    width: nat,
    height: nat,
    new_width: nat,
    new_height: nat,
    filter: Filter,
) -> Seq<Seq<u8>>;

/// The PNG file that `image` writes for an image of the given pixels and
/// dimensions.
pub uninterp spec fn png_encoding(pixels: Seq<Seq<u8>>, width: nat, height: nat) -> Seq<u8>;

/// The colour seen when `over` is laid over `base`: `base` where `over` is
/// fully transparent, `over` where it is opaque, and their composite in
/// between.
pub open spec fn blended(base: Seq<u8>, over: Seq<u8>) -> Seq<u8> {
    if over[3] == 0 {
        base
    } else if over[3] == 255 {
        over
    } else {
        composite(base, over)
    }
}

/// Largest width or height, of the source or of the result, for which the
/// linear filter is offered. The filter weighs pixels by single-precision
/// distances; up to this size the pixel under a sample always has a weight
/// of at least one half, so the weights never sum to zero. The nearest
/// neighbour filter weighs every pixel it takes with one and has no such
/// limit.
pub const MAX_SMOOTH_EXTENT: u32 = 0xFFFF;

/// Whether an image of `width` by `height` pixels can be resampled to
/// `new_width` by `new_height` with `filter`: the source is not empty, the
/// linear filter is asked for no side above [`MAX_SMOOTH_EXTENT`], and both
/// the intermediate image, of the old width and the new height with sixteen
/// bytes per pixel, and the result fit a vector.
pub open spec fn can_resample(
    width: nat,
    height: nat,
    new_width: nat,
    new_height: nat,
    filter: Filter,
) -> bool {
    &&& 0 < width
    &&& 0 < height
    &&& filter == Filter::Triangle ==> width <= MAX_SMOOTH_EXTENT && height <= MAX_SMOOTH_EXTENT
        && new_width <= MAX_SMOOTH_EXTENT && new_height <= MAX_SMOOTH_EXTENT
    &&& 16 * width * new_height <= isize::MAX
    &&& 4 * new_width * new_height <= isize::MAX
}

impl PixelBuffer {
    /// Width in pixels.
    pub open spec fn spec_width(&self) -> nat {
        buffer_width(*self)
    }

    /// Height in pixels.
    pub open spec fn spec_height(&self) -> nat {
        buffer_height(*self)
    }

    /// The pixels, row by row from the top.
    pub open spec fn pixels(&self) -> Seq<Seq<u8>> {
        buffer_pixels(*self)
    }

    /// The pixel in column `x` of row `y`.
    pub open spec fn pixel(&self, x: int, y: int) -> Seq<u8> {
        self.pixels()[y * self.spec_width() + x]
    }

    /// There is one pixel for every place in the image.
    pub open spec fn wf(&self) -> bool {
        self.pixels().len() == self.spec_width() * self.spec_height()
    }
}

/// Calls `ImageBuffer::from_pixel`.
///
/// Trusted: the result has the given dimensions and every pixel is `pixel`.
/// The call panics when the storage would exceed what a vector can hold;
/// such dimensions are left out.
#[verifier::external_body]
pub(crate) fn buffer_from_pixel(width: u32, height: u32, pixel: [u8; 4]) -> (buffer: PixelBuffer)
    requires
        4 * width * height <= isize::MAX,
    ensures
        buffer_width(buffer) == width,
        buffer_height(buffer) == height,
        buffer_pixels(buffer).len() == width * height,
        forall|i: int| 0 <= i < width * height ==> #[trigger] buffer_pixels(buffer)[i] == pixel@,
{
    PixelBuffer { inner: image::ImageBuffer::from_pixel(width, height, image::Rgba(pixel)) }
}

/// Calls `ImageBuffer::dimensions`.
///
/// Trusted: the result is the buffer's width and height.
#[verifier::external_body]
pub(crate) fn buffer_dimensions(buffer: &PixelBuffer) -> (dimensions: (u32, u32))
    ensures
        dimensions.0 == buffer_width(*buffer),
        dimensions.1 == buffer_height(*buffer),
{
    buffer.inner.dimensions()
}

/// Calls `ImageBuffer::get_pixel`, which panics outside the image.
///
/// Trusted: the result is the pixel in column `x` of row `y`.
#[verifier::external_body]
pub(crate) fn buffer_get_pixel(buffer: &PixelBuffer, x: u32, y: u32) -> (pixel: [u8; 4])
    requires
        x < buffer_width(*buffer),
        y < buffer_height(*buffer),
    ensures
        pixel@ == buffer_pixels(*buffer)[y * buffer_width(*buffer) + x],
{
    buffer.inner.get_pixel(x, y).0
}

/// Calls `ImageBuffer::put_pixel`, which panics outside the image.
///
/// Trusted: the pixel in column `x` of row `y` becomes `pixel`; the
/// dimensions and all other pixels stay.
#[verifier::external_body]
pub(crate) fn buffer_put_pixel(buffer: &mut PixelBuffer, x: u32, y: u32, pixel: [u8; 4])
    requires
        x < buffer_width(*old(buffer)),
        y < buffer_height(*old(buffer)),
    ensures
        buffer_width(*final(buffer)) == buffer_width(*old(buffer)),
        buffer_height(*final(buffer)) == buffer_height(*old(buffer)),
        buffer_pixels(*final(buffer)) == buffer_pixels(*old(buffer)).update(
            y * buffer_width(*old(buffer)) + x,
            pixel@,
        ),
{
    buffer.inner.put_pixel(x, y, image::Rgba(pixel))
}

/// Calls `ImageBuffer::into_raw`.
///
/// Trusted: the result is the channels of all pixels, in order.
#[verifier::external_body]
pub(crate) fn buffer_into_raw(buffer: PixelBuffer) -> (raw: Vec<u8>)
    ensures
        raw@.len() == 4 * buffer_pixels(buffer).len(),
        forall|k: int|
            0 <= k < raw@.len() ==> #[trigger] raw@[k] == buffer_pixels(buffer)[k / 4][k % 4],
{
    buffer.inner.into_raw()
}

/// Calls `Pixel::blend` of `Rgba<u8>`.
///
/// Trusted: `over` with alpha zero leaves `base`, `over` with full alpha
/// replaces it, and any other alpha gives what the name [`composite`]
/// stands for. The call does not panic: the composite of two bytes stays
/// within a byte.
#[verifier::external_body]
pub(crate) fn blend_pixel(base: [u8; 4], over: [u8; 4]) -> (result: [u8; 4])
    ensures
        over[3] == 0 ==> result@ == base@,
        over[3] == 255 ==> result@ == over@,
        0 < over[3] < 255 ==> result@ == composite(base@, over@),
{
    let mut pixel = image::Rgba(base);
    image::Pixel::blend(&mut pixel, &image::Rgba(over));
    pixel.0
}

/// Calls `DynamicImage::resize_exact` on a copy of the buffer.
///
/// Trusted: the result has the new dimensions and the pixels that the name
/// [`resampled`] stands for. The call panics when the weights of the linear
/// filter sum to zero, which single-precision rounding can bring about at
/// extreme sizes, and when the intermediate image or the result exceeds
/// what a vector can hold; `can_resample` leaves these out, and empty
/// sources with them.
#[verifier::external_body]
pub(crate) fn buffer_resize_exact(
    buffer: &PixelBuffer,
    new_width: u32,
    new_height: u32,
    filter: Filter,
) -> (resized: PixelBuffer)
    requires
        can_resample(
            buffer_width(*buffer),
            buffer_height(*buffer),
            new_width as nat,
            new_height as nat,
            filter,
        ),
    ensures
        buffer_width(resized) == new_width,
        buffer_height(resized) == new_height,
        buffer_pixels(resized).len() == new_width * new_height,
        buffer_pixels(resized) == resampled(
            buffer_pixels(*buffer),
            buffer_width(*buffer),
            buffer_height(*buffer),
            new_width as nat,
            new_height as nat,
            filter,
        ),
{
    let filter = match filter {
        Filter::Nearest => image::imageops::FilterType::Nearest,
        Filter::Triangle => image::imageops::FilterType::Triangle,
    };
    let source = image::DynamicImage::from(buffer.inner.clone());
    PixelBuffer { inner: source.resize_exact(new_width, new_height, filter).to_rgba8() }
}

/// The error type of the `image` crate, carried through as it comes.
#[verifier::external_type_specification]
#[verifier::external_body]
pub struct ExImageError(image::ImageError);

/// Calls `PngEncoder::write_image` with a vector as the writer.
///
/// Trusted: the encoder refuses an image without pixels, one whose width or
/// height is zero, and no other, since a vector takes every write. When it
/// succeeds, the vector holds what the name [`png_encoding`] stands for.
/// The call panics when the storage does not match the dimensions, which no
/// buffer of this module does.
#[verifier::external_body]
pub(crate) fn buffer_encode_png(
    buffer: &PixelBuffer,
) -> (encoded: Result<Vec<u8>, image::ImageError>)
    ensures
        encoded is Ok == (buffer_width(*buffer) > 0 && buffer_height(*buffer) > 0),
        encoded matches Ok(bytes) ==> bytes@ == png_encoding(
            buffer_pixels(*buffer),
            buffer_width(*buffer),
            buffer_height(*buffer),
        ),
{
    let mut bytes: Vec<u8> = Vec::new();
    let (width, height) = buffer.inner.dimensions();
    let color = <image::Rgba<u8> as image::PixelWithColorType>::COLOR_TYPE;
    let encoder = image::codecs::png::PngEncoder::new(&mut bytes);
    image::ImageEncoder::write_image(encoder, buffer.inner.as_raw(), width, height, color)?;
    Ok(bytes)
}

/// Tells whether an image of `width` by `height` pixels can be resampled to
/// `new_size` with `filter`.
pub fn resampling_offered(width: u32, height: u32, new_size: [u32; 2], filter: Filter) -> (offered:
    bool)
    ensures
        offered == can_resample(
            width as nat,
            height as nat,
            new_size[0] as nat,
            new_size[1] as nat,
            filter,
        ),
{
    let limit = MAX_SMOOTH_EXTENT;
    let smooth = match filter {
        Filter::Triangle => true,
        Filter::Nearest => false,
    };
    if width == 0 || height == 0 {
        return false;
    }
    if smooth && (width > limit || height > limit || new_size[0] > limit || new_size[1] > limit) {
        return false;
    }
    let old_width = width as u128;
    let new_width = new_size[0] as u128;
    let new_height = new_size[1] as u128;
    assert(old_width * new_height <= 0xFFFF_FFFF * 0xFFFF_FFFF && new_width * new_height
        <= 0xFFFF_FFFF * 0xFFFF_FFFF) by (nonlinear_arith)
        requires
            old_width <= 0xFFFF_FFFF,
            new_width <= 0xFFFF_FFFF,
            new_height <= 0xFFFF_FFFF,
    ;
    let between = old_width * new_height;
    let after = new_width * new_height;
    assert(16 * width * new_size[1] == 16 * between && 4 * new_size[0] * new_size[1] == 4 * after)
        by (nonlinear_arith)
        requires
            between == width * new_size[1],
            after == new_size[0] * new_size[1],
    ;
    16 * between <= isize::MAX as u128 && 4 * after <= isize::MAX as u128
}

/// Whether an image of `size` fits a vector: its four bytes per pixel come to
/// no more than the largest length a vector can have.
pub open spec fn image_fits(size: [u32; 2]) -> bool {
    4 * size[0] * size[1] <= isize::MAX
}

/// Tells whether an image of `size` fits a vector.
pub fn fits(size: [u32; 2]) -> (fitting: bool)
    ensures
        fitting == image_fits(size),
{
    let width = size[0] as u128;
    let height = size[1] as u128;
    assert(width * height <= 0xFFFF_FFFF * 0xFFFF_FFFF) by (nonlinear_arith)
        requires
            width <= 0xFFFF_FFFF,
            height <= 0xFFFF_FFFF,
    ;
    let pixels = width * height;
    assert(4 * size[0] * size[1] == 4 * pixels) by (nonlinear_arith)
        requires
            pixels == size[0] * size[1],
    ;
    4 * pixels <= isize::MAX as u128
}

impl PixelBuffer {
    /// Makes an image of `width` by `height` pixels, all of one colour.
    /// The image must fit a vector.
    pub fn from_pixel(width: u32, height: u32, pixel: [u8; 4]) -> (buffer: PixelBuffer)
        requires
            image_fits([width, height]),
        ensures
            buffer.wf(),
            buffer.spec_width() == width,
            buffer.spec_height() == height,
            forall|i: int| 0 <= i < width * height ==> #[trigger] buffer.pixels()[i] == pixel@,
    {
        buffer_from_pixel(width, height, pixel)
    }

    /// Width in pixels.
    pub fn width(&self) -> (width: u32)
        ensures
            width == self.spec_width(),
    {
        buffer_dimensions(self).0
    }

    /// Height in pixels.
    pub fn height(&self) -> (height: u32)
        ensures
            height == self.spec_height(),
    {
        buffer_dimensions(self).1
    }

    /// The pixel in column `x` of row `y`, or `None` outside the image.
    pub fn get_pixel(&self, x: u32, y: u32) -> (pixel: Option<[u8; 4]>)
        ensures
            x < self.spec_width() && y < self.spec_height() ==> (pixel matches Some(channels)
                && channels@ == self.pixel(x as int, y as int)),
            !(x < self.spec_width() && y < self.spec_height()) ==> pixel is None,
    {
        let (width, height) = buffer_dimensions(self);
        if x < width && y < height {
            Some(buffer_get_pixel(self, x, y))
        } else {
            None
        }
    }

    /// The channels of all pixels, row by row from the top.
    pub fn into_raw(self) -> (raw: Vec<u8>)
        ensures
            raw@.len() == 4 * self.pixels().len(),
            forall|k: int|
                0 <= k < raw@.len() ==> #[trigger] raw@[k] == self.pixels()[k / 4][k % 4],
    {
        buffer_into_raw(self)
    }
}

/// Lays `over` over `base`, source over destination.
pub fn blend(base: [u8; 4], over: [u8; 4]) -> (result: [u8; 4])
    ensures
        result@ == blended(base@, over@),
        over[3] == 255 ==> result == over,
        over[3] == 0 ==> result == base,
{
    blend_pixel(base, over)
}

/// An opaque colour hides what it is laid over: blending it over any base
/// gives exactly that colour.
pub proof fn lemma_opaque_blend(base: [u8; 4], over: [u8; 4])
    requires
        over[3] == 255,
    ensures
        blended(base@, over@) == over@,
{
}

/// A fully transparent colour changes nothing: blending it over any base
/// leaves the base.
pub proof fn lemma_transparent_blend(base: [u8; 4], over: [u8; 4])
    requires
        over[3] == 0,
    ensures
        blended(base@, over@) == base@,
{
}

} // verus!
