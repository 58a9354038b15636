use bevy_generative::noise_map::{
    generate_map, gradient_preview, paint, render, resize_for_display, Sizing,
};
use bevy_generative::pixel::{blend, fits, resampling_offered, Filter, PixelBuffer};
use bevy_generative::util::{encoded_asset, export_asset, take_export_request, ExportError};

fn region_gradient() -> colorgrad::Gradient {
    let regions = [[242u8, 241, 199, 255], [24, 148, 67, 255], [10, 82, 35, 255]];
    let colors: Vec<colorgrad::Color> = regions
        .iter()
        .map(|color| colorgrad::Color {
            r: f64::from(color[0]) / 255.0,
            g: f64::from(color[1]) / 255.0,
            b: f64::from(color[2]) / 255.0,
            a: f64::from(color[3]) / 255.0,
        })
        .collect();
    colorgrad::CustomGradient::new()
        .colors(&colors)
        .domain(&[0.0, 0.5, 1.0])
        .build()
        .unwrap()
}

#[test]
fn an_opaque_colour_replaces_the_base() {
    assert_eq!(blend([1, 2, 3, 255], [9, 8, 7, 255]), [9, 8, 7, 255]);
    assert_eq!(blend([1, 2, 3, 0], [9, 8, 7, 255]), [9, 8, 7, 255]);
    assert_eq!(blend([255, 255, 255, 255], [0, 0, 0, 255]), [0, 0, 0, 255]);
    for alpha in [0u8, 1, 127, 254, 255] {
        assert_eq!(blend([13, 200, 77, alpha], [24, 148, 67, 255]), [24, 148, 67, 255]);
    }
}

#[test]
fn a_transparent_colour_leaves_the_base() {
    assert_eq!(blend([1, 2, 3, 255], [9, 8, 7, 0]), [1, 2, 3, 255]);
    assert_eq!(blend([1, 2, 3, 40], [9, 8, 7, 0]), [1, 2, 3, 40]);
}

#[test]
fn a_translucent_colour_is_composited() {
    assert_eq!(blend([10, 20, 30, 255], [200, 100, 50, 64]), [57, 40, 35, 255]);
    assert_eq!(blend([0, 0, 0, 255], [255, 255, 255, 128]), [128, 128, 128, 254]);
}

#[test]
fn painting_lays_each_colour_over_the_base() {
    let image = paint([3, 2], [10, 20, 30, 255], |x, y| {
        if x == 1 {
            [0, 0, 0, 0]
        } else {
            [x as u8, y as u8, 100, 255]
        }
    });
    assert_eq!(image.width(), 3);
    assert_eq!(image.height(), 2);
    assert_eq!(image.get_pixel(0, 0), Some([0, 0, 100, 255]));
    assert_eq!(image.get_pixel(1, 0), Some([10, 20, 30, 255]));
    assert_eq!(image.get_pixel(2, 1), Some([2, 1, 100, 255]));
    assert_eq!(image.get_pixel(3, 0), None);
    assert_eq!(image.get_pixel(0, 2), None);
    assert_eq!(
        image.into_raw(),
        vec![
            0, 0, 100, 255, 10, 20, 30, 255, 2, 0, 100, 255, 0, 1, 100, 255, 10, 20, 30, 255, 2,
            1, 100, 255
        ]
    );
}

#[test]
fn a_buffer_of_one_colour() {
    let buffer = PixelBuffer::from_pixel(2, 3, [1, 2, 3, 4]);
    assert_eq!(buffer.width(), 2);
    assert_eq!(buffer.height(), 3);
    assert_eq!(buffer.get_pixel(1, 2), Some([1, 2, 3, 4]));
    assert_eq!(buffer.into_raw(), [1u8, 2, 3, 4].repeat(6));
    let empty = PixelBuffer::from_pixel(0, 5, [1, 2, 3, 4]);
    assert_eq!(empty.width(), 0);
    assert_eq!(empty.height(), 5);
    assert_eq!(empty.get_pixel(0, 0), None);
    assert!(empty.into_raw().is_empty());
}

#[test]
fn rendering_reads_the_height_of_each_pixel() {
    let heights = vec![vec![0u8, 1, 2], vec![10, 11, 12], vec![20, 21, 22]];
    let image = render(&heights, [2, 2], [0, 0, 0, 255], |height| [*height, 0, 0, 255]);
    assert_eq!(image.width(), 2);
    assert_eq!(image.height(), 2);
    assert_eq!(image.get_pixel(0, 0), Some([0, 0, 0, 255]));
    assert_eq!(image.get_pixel(1, 0), Some([10, 0, 0, 255]));
    assert_eq!(image.get_pixel(0, 1), Some([1, 0, 0, 255]));
    assert_eq!(image.get_pixel(1, 1), Some([11, 0, 0, 255]));
}

#[test]
fn a_region_position_maps_to_the_region_colour() {
    let gradient = region_gradient();
    let heights = vec![vec![0.0f64, 50.0], vec![100.0, 50.0]];
    let image = render(&heights, [2, 2], [255, 255, 255, 255], |height| {
        gradient.at(*height / 100.0).to_rgba8()
    });
    assert_eq!(image.get_pixel(0, 0), Some([242, 241, 199, 255]));
    assert_eq!(image.get_pixel(0, 1), Some([24, 148, 67, 255]));
    assert_eq!(image.get_pixel(1, 0), Some([10, 82, 35, 255]));
    assert_eq!(image.get_pixel(1, 1), Some([24, 148, 67, 255]));
}

#[test]
fn the_preview_shows_one_colour_per_column() {
    let gradient = region_gradient();
    let size = [250u32, 50];
    let image = gradient_preview(size, [255, 255, 255, 255], |x| {
        gradient.at(f64::from(x) / f64::from(size[0])).to_rgba8()
    });
    assert_eq!(image.width(), 250);
    assert_eq!(image.height(), 50);
    assert_eq!(image.get_pixel(0, 0), Some([242, 241, 199, 255]));
    assert_eq!(image.get_pixel(125, 0), Some([24, 148, 67, 255]));
    for x in [0u32, 17, 125, 249] {
        let top = image.get_pixel(x, 0);
        for y in 0..50 {
            assert_eq!(image.get_pixel(x, y), top);
        }
    }
}

#[test]
fn a_translucent_gradient_lets_the_base_through() {
    let image = gradient_preview([2, 1], [10, 20, 30, 255], |x| {
        if x == 0 {
            [200, 100, 50, 64]
        } else {
            [200, 100, 50, 0]
        }
    });
    assert_eq!(image.get_pixel(0, 0), Some([57, 40, 35, 255]));
    assert_eq!(image.get_pixel(1, 0), Some([10, 20, 30, 255]));
}

/// Noise that tells the place of each sample of a map of two by two cells.
fn place(x: i64, y: i64) -> u8 {
    ((x + 1) * 3 + (y + 1) + 1) as u8
}

#[test]
fn a_map_of_the_same_size_is_the_rendering() {
    let mut export = false;
    let mut noise_size = [500, 500];
    let map = generate_map(
        [2, 2],
        [400, 400],
        true,
        true,
        [0, 0, 0, 255],
        &mut export,
        &mut noise_size,
        place,
        |height| [*height, *height, *height, 255],
    );
    assert!(!export);
    assert_eq!(noise_size, [2, 2]);
    assert_eq!(map.noise_values, vec![vec![1u8, 2, 3], vec![4, 5, 6], vec![7, 8, 9]]);
    assert_eq!(map.asset, None);
    assert_eq!(map.sizing, Sizing::AsRendered);
    assert_eq!((map.image.width(), map.image.height()), (2, 2));
    assert_eq!(
        map.image.into_raw(),
        vec![1, 1, 1, 255, 4, 4, 4, 255, 2, 2, 2, 255, 5, 5, 5, 255]
    );
}

#[test]
fn a_map_is_resized_to_its_image_size() {
    for anti_aliasing in [true, false] {
        let mut export = false;
        let mut noise_size = [0, 0];
        let map = generate_map(
            [2, 2],
            [5, 3],
            false,
            anti_aliasing,
            [0, 0, 0, 255],
            &mut export,
            &mut noise_size,
            |_, _| 9u8,
            |height| [*height, 0, 0, 255],
        );
        assert_eq!(map.sizing, Sizing::Resized);
        assert_eq!((map.image.width(), map.image.height()), (5, 3));
        assert_eq!(map.image.into_raw(), [9u8, 0, 0, 255].repeat(15));
    }
}

#[test]
fn a_pending_export_encodes_the_shown_image_once() {
    let mut export = true;
    let mut noise_size = [0, 0];
    let generate = |export: &mut bool, noise_size: &mut [u32; 2]| {
        generate_map(
            [2, 2],
            [4, 1],
            false,
            false,
            [0, 0, 0, 255],
            export,
            noise_size,
            place,
            |height| [*height, 0, 0, 255],
        )
    };
    let map = generate(&mut export, &mut noise_size);
    assert!(!export);
    let bytes = map.asset.unwrap().unwrap();
    let decoded = image::load_from_memory(&bytes).unwrap().to_rgba8();
    assert_eq!(decoded.dimensions(), (4, 1));
    assert_eq!(decoded.into_raw(), map.image.into_raw());
    let again = generate(&mut export, &mut noise_size);
    assert!(!export);
    assert_eq!(again.asset, None);
}

#[test]
fn a_pending_export_of_an_empty_map_is_an_error() {
    let mut export = true;
    let mut noise_size = [7, 7];
    let map = generate_map(
        [0, 0],
        [4, 4],
        true,
        true,
        [0, 0, 0, 255],
        &mut export,
        &mut noise_size,
        |_, _| 0u8,
        |_| [0, 0, 0, 255],
    );
    assert!(!export);
    assert_eq!(noise_size, [0, 0]);
    assert_eq!(map.noise_values, vec![vec![0u8]]);
    assert_eq!(map.asset, Some(Err(ExportError::Image)));
}

#[test]
fn a_map_that_cannot_be_resized_says_so() {
    let mut export = false;
    let mut noise_size = [0, 0];
    let map = generate_map(
        [2, 2],
        [65536, 1],
        false,
        true,
        [0, 0, 0, 255],
        &mut export,
        &mut noise_size,
        |_, _| 9u8,
        |height| [*height, 0, 0, 255],
    );
    assert_eq!(map.sizing, Sizing::Unresizable);
    assert_eq!((map.image.width(), map.image.height()), (2, 2));
}

#[test]
fn resizing_picks_the_filter_by_anti_aliasing() {
    let checker = |x: u32, _: u32| if x == 0 { [0, 0, 0, 255] } else { [255, 255, 255, 255] };
    let source = || paint([2, 1], [0, 0, 0, 255], checker);
    let (nearest, sizing) = resize_for_display(source(), [4, 1], false, false);
    assert_eq!(sizing, Sizing::Resized);
    assert_eq!(
        nearest.into_raw(),
        vec![0, 0, 0, 255, 0, 0, 0, 255, 255, 255, 255, 255, 255, 255, 255, 255]
    );
    let (linear, sizing) = resize_for_display(source(), [4, 1], false, true);
    assert_eq!(sizing, Sizing::Resized);
    assert_eq!(
        linear.into_raw(),
        vec![0, 0, 0, 255, 64, 64, 64, 255, 191, 191, 191, 255, 255, 255, 255, 255]
    );
    let (shrunk, _) = resize_for_display(source(), [1, 1], false, false);
    assert_eq!((shrunk.width(), shrunk.height()), (1, 1));
    let (none, sizing) = resize_for_display(source(), [0, 3], false, true);
    assert_eq!(sizing, Sizing::Resized);
    assert_eq!((none.width(), none.height()), (0, 3));
}

#[test]
fn a_long_image_is_resized_with_the_nearest_neighbour() {
    let long = paint([70000, 1], [0, 0, 0, 255], |x, _| [(x / 7000) as u8, 0, 0, 255]);
    let (shown, sizing) = resize_for_display(long, [10, 10], false, false);
    assert_eq!(sizing, Sizing::Resized);
    assert_eq!((shown.width(), shown.height()), (10, 10));
    for x in 0..10 {
        assert_eq!(shown.get_pixel(x, 9), Some([x as u8, 0, 0, 255]));
    }
    let (grown, sizing) =
        resize_for_display(PixelBuffer::from_pixel(1, 1, [1, 2, 3, 4]), [70000, 2], false, false);
    assert_eq!(sizing, Sizing::Resized);
    assert_eq!(grown.get_pixel(69999, 1), Some([1, 2, 3, 4]));
}

#[test]
fn an_image_that_cannot_be_resampled_is_reported() {
    let color = [1, 2, 3, 4];
    let (empty, sizing) =
        resize_for_display(PixelBuffer::from_pixel(0, 0, color), [4, 4], false, true);
    assert_eq!(sizing, Sizing::Unresizable);
    assert_eq!((empty.width(), empty.height()), (0, 0));
    let (wide, sizing) =
        resize_for_display(PixelBuffer::from_pixel(2, 2, color), [65536, 1], false, true);
    assert_eq!(sizing, Sizing::Unresizable);
    assert_eq!((wide.width(), wide.height()), (2, 2));
    let (long, sizing) =
        resize_for_display(PixelBuffer::from_pixel(70000, 1, color), [10, 10], false, true);
    assert_eq!(sizing, Sizing::Unresizable);
    assert_eq!((long.width(), long.height()), (70000, 1));
    let (kept, sizing) =
        resize_for_display(PixelBuffer::from_pixel(2, 2, color), [9, 9], true, true);
    assert_eq!(sizing, Sizing::AsRendered);
    assert_eq!((kept.width(), kept.height()), (2, 2));
}

#[test]
fn resampling_is_offered_within_the_limits_of_the_filter() {
    assert!(resampling_offered(2, 2, [5, 3], Filter::Triangle));
    assert!(resampling_offered(65535, 65535, [65535, 65535], Filter::Triangle));
    assert!(!resampling_offered(65536, 1, [1, 1], Filter::Triangle));
    assert!(!resampling_offered(1, 1, [1, 65536], Filter::Triangle));
    assert!(resampling_offered(65536, 1, [1, 1], Filter::Nearest));
    assert!(resampling_offered(1, 1, [1, 65536], Filter::Nearest));
    assert!(!resampling_offered(0, 1, [1, 1], Filter::Nearest));
    assert!(!resampling_offered(1, 0, [1, 1], Filter::Triangle));
    assert!(!resampling_offered(1, 1, [u32::MAX, u32::MAX], Filter::Nearest));
    assert!(!resampling_offered(u32::MAX, 1, [1, u32::MAX], Filter::Nearest));
}

#[test]
fn an_asset_is_a_png_of_the_image() {
    let color_at = |x: u32, y: u32| [x as u8 * 50, y as u8 * 100, 7, 200];
    let image = paint([3, 2], [0, 0, 0, 255], color_at);
    let expected = paint([3, 2], [0, 0, 0, 255], color_at).into_raw();
    let bytes = export_asset(&image).unwrap();
    assert_eq!(&bytes[..8], &[0x89, b'P', b'N', b'G', 0x0D, 0x0A, 0x1A, 0x0A]);
    let decoded = image::load_from_memory(&bytes).unwrap().to_rgba8();
    assert_eq!(decoded.dimensions(), (3, 2));
    assert_eq!(decoded.into_raw(), expected);
}

#[test]
fn an_image_without_pixels_is_no_asset() {
    for size in [[0, 0], [0, 3], [3, 0]] {
        let image = PixelBuffer::from_pixel(size[0], size[1], [0, 0, 0, 255]);
        assert_eq!(export_asset(&image), Err(ExportError::Image));
    }
    assert!(export_asset(&PixelBuffer::from_pixel(1, 1, [0, 0, 0, 255])).is_ok());
}

#[test]
fn an_encoder_error_becomes_an_export_error() {
    let error = image::ImageError::IoError(std::io::Error::new(std::io::ErrorKind::Other, "full"));
    assert_eq!(encoded_asset(Err(error)), Err(ExportError::Image));
    assert_eq!(encoded_asset(Ok(vec![1, 2, 3])), Ok(vec![1, 2, 3]));
}

#[test]
fn an_export_request_is_taken_once() {
    let mut export = true;
    assert!(take_export_request(&mut export));
    assert!(!export);
    assert!(!take_export_request(&mut export));
    assert!(!export);
}

#[test]
fn an_image_fits_if_its_bytes_fit_a_vector() {
    assert!(fits([0, 0]));
    assert!(fits([400, 400]));
    assert!(fits([u32::MAX, 0]));
    assert!(fits([(1 << 31) - 1, 1 << 30]));
    assert!(!fits([1 << 31, 1 << 30]));
    assert!(!fits([u32::MAX, u32::MAX]));
}
