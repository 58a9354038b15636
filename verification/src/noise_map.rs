//! Images of a height field: every height shown as a colour over a base
//! colour.

use crate::mesh::lemma_vertex_in_grid;
use crate::noise::{generate_noise_vector, is_noise_vector, on_axis};
use crate::pixel::{
    blend, blended, buffer_get_pixel, buffer_put_pixel, buffer_resize_exact, can_resample,
    image_fits, resampled, resampling_offered, Filter, PixelBuffer,
};
use crate::util::{export_asset, is_asset, take_export_request, ExportError};
use vstd::prelude::*;

verus! {

/// Whether the pixel in column `x` of row `y` of an image `width` pixels
/// wide is a colour that `color_at` gives for `(x, y)`, laid over
/// `base_color`.
pub open spec fn pixel_painted<C: Fn(u32, u32) -> [u8; 4]>(
    color_at: C,
    base_color: [u8; 4],
    width: int,
    pixels: Seq<Seq<u8>>,
    x: u32,
    y: u32,
) -> bool {
    exists|color: [u8; 4]| #[trigger]
        color_at.ensures((x, y), color) && pixels[y * width + x] == blended(base_color@, color@)
}

/// Whether `pixels` is an image of the given dimensions, every pixel of
/// which is painted by `color_at` over `base_color`.
pub open spec fn is_painting<C: Fn(u32, u32) -> [u8; 4]>(
    color_at: C,
    base_color: [u8; 4],
    width: int,
    height: int,
    pixels: Seq<Seq<u8>>,
) -> bool {
    &&& pixels.len() == width * height
    &&& forall|x: u32, y: u32|
        x < width && y < height ==> #[trigger] pixel_painted(
            color_at,
            base_color,
            width,
            pixels,
            x,
            y,
        )
}

/// Paints an image of `size`: starts from `base_color` everywhere and lays
/// the colour that `color_at` gives for each pixel over it, row by row.
/// The image must fit a vector.
pub fn paint<C: Fn(u32, u32) -> [u8; 4]>(
    size: [u32; 2],
    base_color: [u8; 4],
    color_at: C,
) -> (image: PixelBuffer)
    requires
        image_fits(size),
        forall|x: u32, y: u32| x < size[0] && y < size[1] ==> #[trigger] color_at.requires((x, y)),
    ensures
        image.wf(),
        image.spec_width() == size[0],
        image.spec_height() == size[1],
        is_painting(color_at, base_color, size[0] as int, size[1] as int, image.pixels()),
{
    let width = size[0];
    let height = size[1];
    let mut image = PixelBuffer::from_pixel(width, height, base_color);
    let mut y: u32 = 0;
    while y < height
        invariant
            y <= height,
            image.wf(),
            image.spec_width() == width,
            image.spec_height() == height,
            forall|x: u32, y: u32| x < width && y < height ==> #[trigger] color_at.requires((x, y)),
            forall|k: int|
                y * width <= k < width * height ==> #[trigger] image.pixels()[k] == base_color@,
            forall|a: u32, b: u32|
                a < width && b < y ==> #[trigger] pixel_painted(
                    color_at,
                    base_color,
                    width as int,
                    image.pixels(),
                    a,
                    b,
                ),
        decreases height - y,
    {
        let mut x: u32 = 0;
        while x < width
            invariant
                y < height,
                x <= width,
                image.wf(),
                image.spec_width() == width,
                image.spec_height() == height,
                forall|x: u32, y: u32|
                    x < width && y < height ==> #[trigger] color_at.requires((x, y)),
                forall|k: int|
                    y * width + x <= k < width * height ==> #[trigger] image.pixels()[k]
                        == base_color@,
                forall|a: u32, b: u32|
                    a < width && (b < y || (b == y && a < x)) ==> #[trigger] pixel_painted(
                        color_at,
                        base_color,
                        width as int,
                        image.pixels(),
                        a,
                        b,
                    ),
            decreases width - x,
        {
            proof {
                lemma_vertex_in_grid(height as int, width as int, y as int, x as int);
            }
            let ghost before = image.pixels();
            let current = buffer_get_pixel(&image, x, y);
            let target = color_at(x, y);
            let result = blend(current, target);
            buffer_put_pixel(&mut image, x, y, result);
            proof {
                assert forall|a: u32, b: u32|
                    a < width && (b < y || (b == y && a < x + 1)) implies #[trigger] pixel_painted(
                    color_at,
                    base_color,
                    width as int,
                    image.pixels(),
                    a,
                    b,
                ) by {
                    if b == y && a == x {
                        assert(color_at.ensures((a, b), target));
                    } else {
                        if b < y {
                            lemma_vertex_in_grid(y as int, width as int, b as int, a as int);
                        }
                        assert(image.pixels()[b * width + a] == before[b * width + a]);
                        assert(pixel_painted(color_at, base_color, width as int, before, a, b));
                    }
                }
            }
            x += 1;
        }
        proof {
            assert((y + 1) * width == y * width + width) by (nonlinear_arith);
        }
        y += 1;
    }
    image
}

/// Whether `noise_values` holds a value for every pixel of an image of the
/// given dimensions, the one for column `x` of row `y` at `[x][y]`.
pub open spec fn covers<T>(noise_values: Seq<Vec<T>>, width: int, height: int) -> bool {
    &&& noise_values.len() >= width
    &&& forall|x: int| 0 <= x < width ==> (#[trigger] noise_values[x]).len() >= height
}

/// Whether the pixel in column `x` of row `y` is a colour that `color_at`
/// gives for the height at `[x][y]`, laid over `base_color`.
pub open spec fn height_painted<T, C: Fn(&T) -> [u8; 4]>(
    color_at: C,
    noise_values: Seq<Vec<T>>,
    base_color: [u8; 4],
    width: int,
    pixels: Seq<Seq<u8>>,
    x: u32,
    y: u32,
) -> bool {
    exists|color: [u8; 4]| #[trigger]
        color_at.ensures((&noise_values[x as int][y as int],), color) && pixels[y * width + x]
            == blended(base_color@, color@)
}

/// Whether `pixels` is an image of the given dimensions, every pixel of
/// which shows the height under it through `color_at` over `base_color`.
pub open spec fn is_rendering<T, C: Fn(&T) -> [u8; 4]>(
    color_at: C,
    noise_values: Seq<Vec<T>>,
    base_color: [u8; 4],
    width: int,
    height: int,
    pixels: Seq<Seq<u8>>,
) -> bool {
    &&& pixels.len() == width * height
    &&& forall|x: u32, y: u32|
        x < width && y < height ==> #[trigger] height_painted(
            color_at,
            noise_values,
            base_color,
            width,
            pixels,
            x,
            y,
        )
}

/// Renders a height field as an image of `size`: the colour of each height
/// over `base_color`. The height field may be larger than the image; the
/// image must fit a vector.
pub fn render<T, C: Fn(&T) -> [u8; 4]>(
    noise_values: &Vec<Vec<T>>,
    size: [u32; 2],
    base_color: [u8; 4],
    color_at: C,
) -> (image: PixelBuffer)
    requires
        image_fits(size),
        covers(noise_values@, size[0] as int, size[1] as int),
        forall|x: u32, y: u32|
            x < size[0] && y < size[1] ==> #[trigger] color_at.requires(
                (&noise_values@[x as int][y as int],),
            ),
    ensures
        image.wf(),
        image.spec_width() == size[0],
        image.spec_height() == size[1],
        is_rendering(
            color_at,
            noise_values@,
            base_color,
            size[0] as int,
            size[1] as int,
            image.pixels(),
        ),
{
    let color_of = &color_at;
    let per_pixel = |x: u32, y: u32| -> (color: [u8; 4])
        requires
            x < size[0],
            y < size[1],
        ensures
            color_of.ensures((&noise_values@[x as int][y as int],), color),
        { color_of(&noise_values[x as usize][y as usize]) };
    let image = paint(size, base_color, per_pixel);
    proof {
        assert forall|x: u32, y: u32| x < size[0] && y < size[1] implies #[trigger] height_painted(
            color_at,
            noise_values@,
            base_color,
            size[0] as int,
            image.pixels(),
            x,
            y,
        ) by {
            assert(pixel_painted(per_pixel, base_color, size[0] as int, image.pixels(), x, y));
        }
    }
    image
}

/// Whether the pixel in column `x` of row `y` is a colour that `color_at`
/// gives for column `x`, laid over `base_color`.
pub open spec fn column_painted<C: Fn(u32) -> [u8; 4]>(
    color_at: C,
    base_color: [u8; 4],
    width: int,
    pixels: Seq<Seq<u8>>,
    x: u32,
    y: u32,
) -> bool {
    exists|color: [u8; 4]| #[trigger]
        color_at.ensures((x,), color) && pixels[y * width + x] == blended(base_color@, color@)
}

/// Paints the preview strip of a gradient: an image of `size` in which every
/// pixel of a column shows the colour that `color_at` gives for the column,
/// over `base_color`. The image must fit a vector.
pub fn gradient_preview<C: Fn(u32) -> [u8; 4]>(
    size: [u32; 2],
    base_color: [u8; 4],
    color_at: C,
) -> (image: PixelBuffer)
    requires
        image_fits(size),
        forall|x: u32| x < size[0] ==> #[trigger] color_at.requires((x,)),
    ensures
        image.wf(),
        image.spec_width() == size[0],
        image.spec_height() == size[1],
        forall|x: u32, y: u32|
            x < size[0] && y < size[1] ==> #[trigger] column_painted(
                color_at,
                base_color,
                size[0] as int,
                image.pixels(),
                x,
                y,
            ),
{
    let color_of = &color_at;
    let per_pixel = |x: u32, y: u32| -> (color: [u8; 4])
        requires
            x < size[0],
        ensures
            color_of.ensures((x,), color),
        { color_of(x) };
    let image = paint(size, base_color, per_pixel);
    proof {
        assert forall|x: u32, y: u32| x < size[0] && y < size[1] implies #[trigger] column_painted(
            color_at,
            base_color,
            size[0] as int,
            image.pixels(),
            x,
            y,
        ) by {
            assert(pixel_painted(per_pixel, base_color, size[0] as int, image.pixels(), x, y));
        }
    }
    image
}

/// The filter that resizing uses: linear with anti-aliasing, nearest
/// neighbour without.
pub open spec fn display_filter(anti_aliasing: bool) -> Filter {
    if anti_aliasing {
        Filter::Triangle
    } else {
        Filter::Nearest
    }
}

/// How the image that is shown relates to the rendering.
#[derive(Clone, Copy, Debug, PartialEq, Eq, Structural)]
pub enum Sizing {
    /// No size of its own was asked for: the rendering is shown as it is.
    AsRendered,
    /// The rendering was resampled to the size asked for.
    Resized,
    /// A size of its own was asked for, but the rendering cannot be
    /// resampled to it; it is shown as it is.
    Unresizable,
}

/// What becomes of a rendering of `size` for which the display size
/// `image_size` is configured.
pub open spec fn sizing_of(
    size: [u32; 2],
    image_size: [u32; 2],
    same_size: bool,
    anti_aliasing: bool,
) -> Sizing {
    if same_size {
        Sizing::AsRendered
    } else if can_resample(
        size[0] as nat,
        size[1] as nat,
        image_size[0] as nat,
        image_size[1] as nat,
        display_filter(anti_aliasing),
    ) {
        Sizing::Resized
    } else {
        Sizing::Unresizable
    }
}

/// The pixels shown for a rendering of `size` with the given pixels.
pub open spec fn display_pixels(
    pixels: Seq<Seq<u8>>,
    size: [u32; 2],
    image_size: [u32; 2],
    same_size: bool,
    anti_aliasing: bool,
) -> Seq<Seq<u8>> {
    if sizing_of(size, image_size, same_size, anti_aliasing) == Sizing::Resized {
        resampled(
            pixels,
            size[0] as nat,
            size[1] as nat,
            image_size[0] as nat,
            image_size[1] as nat,
            display_filter(anti_aliasing),
        )
    } else {
        pixels
    }
}

/// The dimensions of the image shown for a rendering of `size`.
pub open spec fn display_size(
    size: [u32; 2],
    image_size: [u32; 2],
    same_size: bool,
    anti_aliasing: bool,
) -> [u32; 2] {
    if sizing_of(size, image_size, same_size, anti_aliasing) == Sizing::Resized {
        image_size
    } else {
        size
    }
}

/// Brings an image to its display size and says what was done.
///
/// With `same_size` the image is shown as it is. Otherwise it is resampled
/// to `image_size`, with the linear filter if `anti_aliasing` is set and with
/// the nearest neighbour if not. Where resampling is not offered, because
/// the image is empty, a side is too long for the linear filter or the
/// result would not fit a vector, the image is handed back unchanged and
/// reported as unresizable.
pub fn resize_for_display(
    image: PixelBuffer,
    image_size: [u32; 2],
    same_size: bool,
    anti_aliasing: bool,
) -> (shown: (PixelBuffer, Sizing))
    requires
        image.wf(),
    ensures
        shown.0.wf(),
        shown.1 == sizing_of(
            [image.spec_width() as u32, image.spec_height() as u32],
            image_size,
            same_size,
            anti_aliasing,
        ),
        shown.0.spec_width() == display_size(
            [image.spec_width() as u32, image.spec_height() as u32],
            image_size,
            same_size,
            anti_aliasing,
        )[0],
        shown.0.spec_height() == display_size(
            [image.spec_width() as u32, image.spec_height() as u32],
            image_size,
            same_size,
            anti_aliasing,
        )[1],
        shown.0.pixels() == display_pixels(
            image.pixels(),
            [image.spec_width() as u32, image.spec_height() as u32],
            image_size,
            same_size,
            anti_aliasing,
        ),
{
    let width = image.width();
    let height = image.height();
    if same_size {
        return (image, Sizing::AsRendered);
    }
    let filter = if anti_aliasing {
        Filter::Triangle
    } else {
        Filter::Nearest
    };
    if resampling_offered(width, height, image_size, filter) {
        (buffer_resize_exact(&image, image_size[0], image_size[1], filter), Sizing::Resized)
    } else {
        (image, Sizing::Unresizable)
    }
}

/// A generated map.
pub struct MapImage<T> {
    /// The height field of the map.
    pub noise_values: Vec<Vec<T>>,
    /// The image to show.
    pub image: PixelBuffer,
    /// How the image relates to the rendering of the height field.
    pub sizing: Sizing,
    /// The outcome of exporting the image, if an export was pending.
    pub asset: Option<Result<Vec<u8>, ExportError>>,
}

/// Generates a map of `size`.
///
/// The noise is sampled at the size of the map, which is recorded in
/// `noise_size`; the samples are rendered through `color_at` over
/// `base_color`; the rendering is brought to its display size; and if an
/// export is pending, the image that is shown is encoded. A pending export
/// is taken: none is pending afterwards, so one request gives one export.
pub fn generate_map<T, N: Fn(i64, i64) -> T, C: Fn(&T) -> [u8; 4]>(
    size: [u32; 2],
    image_size: [u32; 2],
    same_size: bool,
    anti_aliasing: bool,
    base_color: [u8; 4],
    export: &mut bool,
    noise_size: &mut [u32; 2],
    noise: N,
    color_at: C,
) -> (map: MapImage<T>)
    requires
        image_fits(size),
        forall|x: i64, y: i64|
            on_axis(x as int, size[0] as int) && on_axis(y as int, size[1] as int)
                ==> #[trigger] noise.requires((x, y)),
        forall|x: i64, y: i64, height: T|
            on_axis(x as int, size[0] as int) && on_axis(y as int, size[1] as int)
                && #[trigger] noise.ensures((x, y), height) ==> color_at.requires((&height,)),
    ensures
        !*final(export),
        *final(noise_size) == size,
        is_noise_vector(noise, size, map.noise_values@),
        map.asset is Some == *old(export),
        map.asset matches Some(result) ==> is_asset(result, map.image),
        map.image.wf(),
        map.sizing == sizing_of(size, image_size, same_size, anti_aliasing),
        map.image.spec_width() == display_size(size, image_size, same_size, anti_aliasing)[0],
        map.image.spec_height() == display_size(size, image_size, same_size, anti_aliasing)[1],
        exists|rendered: Seq<Seq<u8>>| #[trigger]
            is_rendering(
                color_at,
                map.noise_values@,
                base_color,
                size[0] as int,
                size[1] as int,
                rendered,
            ) && map.image.pixels() == display_pixels(
                rendered,
                size,
                image_size,
                same_size,
                anti_aliasing,
            ),
{
    *noise_size = size;
    let noise_values = generate_noise_vector(noise, size);
    let rendered = render(&noise_values, size, base_color, color_at);
    let ghost painted = rendered.pixels();
    proof {
        assert([rendered.spec_width() as u32, rendered.spec_height() as u32] =~= size);
    }
    let (image, sizing) = resize_for_display(rendered, image_size, same_size, anti_aliasing);
    let asset = if take_export_request(export) {
        Some(export_asset(&image))
    } else {
        None
    };
    let map = MapImage { noise_values, image, sizing, asset };
    assert(is_rendering(
        color_at,
        map.noise_values@,
        base_color,
        size[0] as int,
        size[1] as int,
        painted,
    ) && map.image.pixels() == display_pixels(
        painted,
        size,
        image_size,
        same_size,
        anti_aliasing,
    ));
    map
}

} // verus!
