use raytracer::assemble::{build_image, BuildImageError, Rgba};
use raytracer::pixel::Rgb;
use raytracer::render::{pixel_row_col, render};
use raytracer::shading::should_recurse;

use image::GenericImageView;

#[test]
fn render_length_is_width_height_3() {
    for (w, h) in [(1usize, 1usize), (2, 2), (3, 4), (7, 1), (1, 9)] {
        let shaded: Vec<Option<Rgb>> = vec![Some(Rgb::new(10, 20, 30)); w * h];
        let buf = render(w, h, &shaded);
        assert_eq!(buf.len(), w * h * 3);
    }
}

#[test]
fn missed_pixels_are_black() {
    let shaded = vec![
        Some(Rgb::new(200, 100, 50)),
        None,
        Some(Rgb::new(1, 2, 3)),
        None,
    ];
    let buf = render(2, 2, &shaded);
    assert_eq!(buf, vec![200, 100, 50, 0, 0, 0, 1, 2, 3, 0, 0, 0]);
    assert_eq!(&buf[3..6], &[0, 0, 0]);
    assert_eq!(&buf[9..12], &[0, 0, 0]);
}

#[test]
fn render_is_deterministic() {
    let shaded = vec![
        Some(Rgb::new(5, 6, 7)),
        None,
        Some(Rgb::new(255, 0, 128)),
        Some(Rgb::new(9, 9, 9)),
        None,
        Some(Rgb::new(0, 0, 1)),
    ];
    let first = render(3, 2, &shaded);
    let second = render(3, 2, &shaded);
    assert_eq!(first, second);
}

#[test]
fn pixel_index_decomposition() {
    assert_eq!(pixel_row_col(0, 4), (0, 0));
    assert_eq!(pixel_row_col(5, 4), (1, 1));
    assert_eq!(pixel_row_col(11, 4), (2, 3));
    for idx in 0..60usize {
        let (i, j) = pixel_row_col(idx, 5);
        assert_eq!(i * 5 + j, idx);
        assert!(j < 5);
    }
}

#[test]
fn build_image_rejects_length_not_divisible_by_3() {
    let pixels: Vec<u8> = vec![1, 2, 3, 4, 5];
    let res = build_image(1, 1, &pixels);
    assert_eq!(res.unwrap_err(), BuildImageError::NotDivisibleBy3 { len: 5 });
}

#[test]
fn build_image_rejects_dimension_mismatch() {
    // 30 bytes hold 10 pixels; 10 is divisible by neither 3 nor 4.
    let pixels: Vec<u8> = vec![7; 30];
    let res = build_image(3, 4, &pixels);
    assert_eq!(
        res.unwrap_err(),
        BuildImageError::DimensionMismatch { len: 30, width: 3, height: 4 }
    );
}

#[test]
fn build_image_reads_row_major_and_zeroes_alpha() {
    let pixels: Vec<u8> = vec![
        10, 11, 12, 20, 21, 22, //
        30, 31, 32, 40, 41, 42,
    ];
    let grid = build_image(2, 2, &pixels).unwrap();
    assert_eq!(grid.width, 2);
    assert_eq!(grid.height, 2);
    assert_eq!(grid.get(0, 0), Rgba { r: 10, g: 11, b: 12, a: 0 });
    assert_eq!(grid.get(1, 0), Rgba { r: 20, g: 21, b: 22, a: 0 });
    assert_eq!(grid.get(0, 1), Rgba { r: 30, g: 31, b: 32, a: 0 });
    assert_eq!(grid.get(1, 1), Rgba { r: 40, g: 41, b: 42, a: 0 });
}

#[test]
fn empty_scene_two_by_two_is_all_zero() {
    // A 2x2 image over a scene with no objects: every ray misses.
    let shaded: Vec<Option<Rgb>> = vec![None; 4];
    let buf = render(2, 2, &shaded);
    assert_eq!(buf.len(), 12);
    assert!(buf.iter().all(|&b| b == 0));
    let grid = build_image(2, 2, &buf).unwrap();
    for y in 0..2 {
        for x in 0..2 {
            assert_eq!(grid.get(x, y), Rgba { r: 0, g: 0, b: 0, a: 0 });
        }
    }
}

#[test]
fn depth_limit_zero_disables_recursion() {
    assert!(!should_recurse(0, 0, true));
    assert!(!should_recurse(0, 0, false));
    assert!(should_recurse(0, 1, true));
    assert!(!should_recurse(0, 1, false));
    assert!(!should_recurse(1, 1, true));
}

#[test]
fn full_frame_object_depth_zero_is_uniform() {
    // A single object filling the whole frame with depth limit 0: every
    // pixel carries the object's local illumination, unchanged.
    let local = Rgb::new(90, 60, 30);
    let shaded: Vec<Option<Rgb>> = vec![Some(local); 6];
    let buf = render(3, 2, &shaded);
    assert_eq!(buf.len(), 18);
    for p in 0..6 {
        assert_eq!(&buf[3 * p..3 * p + 3], &[90, 60, 30]);
    }
}

#[test]
fn build_image_ignores_bytes_past_the_grid() {
    // 24 bytes hold 8 pixels; 8 divides evenly by 2 and 2, so validation
    // passes and the 2x2 grid reads only the first 12 bytes.
    let mut pixels: Vec<u8> = (1..=12).collect();
    pixels.extend([99u8; 12]);
    let grid = build_image(2, 2, &pixels).unwrap();
    assert_eq!(grid.get(0, 0), Rgba { r: 1, g: 2, b: 3, a: 0 });
    assert_eq!(grid.get(1, 1), Rgba { r: 10, g: 11, b: 12, a: 0 });
}

#[test]
fn single_column_index_decomposition() {
    for idx in 0..5usize {
        assert_eq!(pixel_row_col(idx, 1), (idx, 0));
    }
}

#[test]
fn rgb_image_holds_the_grid_pixels() {
    let pixels: Vec<u8> = vec![
        10, 11, 12, 20, 21, 22, //
        30, 31, 32, 40, 41, 42,
    ];
    let grid = build_image(2, 2, &pixels).unwrap();
    let img = raytracer::image_out::to_rgb_image(&grid);
    assert_eq!(img.dimensions(), (2, 2));
    // An 8-bit RGB image reads back with a fully opaque alpha channel.
    assert_eq!(img.get_pixel(0, 0), image::Rgba([10, 11, 12, 255]));
    assert_eq!(img.get_pixel(1, 0), image::Rgba([20, 21, 22, 255]));
    assert_eq!(img.get_pixel(0, 1), image::Rgba([30, 31, 32, 255]));
    assert_eq!(img.get_pixel(1, 1), image::Rgba([40, 41, 42, 255]));
}

#[test]
fn black_constructor_is_zero() {
    assert_eq!(Rgb::black(), Rgb::new(0, 0, 0));
}
