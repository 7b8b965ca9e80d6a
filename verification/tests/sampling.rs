use image::{DynamicImage, GrayImage, Luma, Rgb, RgbImage, Rgba, RgbaImage};
use stereograph::raster::Color;
use stereograph::sampling::{bilinear_interpolation, interpolation, SUBPIXELS};

fn rgb(r: u8, g: u8, b: u8) -> Color {
    Color { r, g, b }
}

/// A 3 by 2 image whose pixel in column `x` of row `y` is
/// `(10 * x + 100 * y, 5 * x, 7 * y)`.
fn gradient() -> DynamicImage {
    DynamicImage::ImageRgb8(RgbImage::from_fn(3, 2, |x, y| {
        Rgb([(10 * x + 100 * y) as u8, (5 * x) as u8, (7 * y) as u8])
    }))
}

#[test]
fn interpolation_with_equal_weights_averages() {
    let q = interpolation(rgb(100, 50, 0), 1, rgb(200, 50, 11), 1);
    assert_eq!(q, rgb(150, 50, 5));
}

#[test]
fn interpolation_rounds_down() {
    assert_eq!(interpolation(rgb(0, 0, 0), 1, rgb(1, 2, 255), 2), rgb(0, 1, 170));
    assert_eq!(interpolation(rgb(0, 0, 0), 1, rgb(1, 1, 1), 1), rgb(0, 0, 0));
}

#[test]
fn interpolation_weights_by_distance() {
    let q = interpolation(rgb(0, 40, 255), 3 * SUBPIXELS / 4, rgb(200, 80, 0), SUBPIXELS / 4);
    assert_eq!(q, rgb(50, 50, 191));
}

#[test]
fn interpolation_with_cancelling_weights_returns_first() {
    assert_eq!(interpolation(rgb(1, 2, 3), 0, rgb(9, 9, 9), 0), rgb(1, 2, 3));
    assert_eq!(interpolation(rgb(1, 2, 3), 7, rgb(9, 9, 9), -7), rgb(1, 2, 3));
    assert_eq!(
        interpolation(rgb(1, 2, 3), i64::MIN + 1, rgb(9, 9, 9), i64::MAX),
        rgb(1, 2, 3)
    );
}

#[test]
fn interpolation_saturates_outside_the_channel_range() {
    let q = interpolation(rgb(100, 50, 0), 6, rgb(200, 10, 11), -5);
    assert_eq!(q, rgb(0, 250, 0));
    let p = interpolation(rgb(100, 50, 0), 6, rgb(50, 50, 0), -5);
    assert_eq!(p, rgb(255, 50, 0));
}

#[test]
fn interpolation_with_negative_total_weight() {
    let q = interpolation(rgb(100, 50, 0), -1, rgb(200, 50, 11), -1);
    assert_eq!(q, rgb(150, 50, 5));
}

#[test]
fn interpolation_of_equal_colors_is_that_color() {
    for (w1, w2) in [(1, 1), (5, -3), (-9, 2), (i64::MAX, i64::MAX), (i64::MIN, 3)] {
        assert_eq!(interpolation(rgb(7, 0, 255), w1, rgb(7, 0, 255), w2), rgb(7, 0, 255));
    }
}

#[test]
fn sampling_at_a_pixel_returns_that_pixel() {
    let img = gradient();
    for y in 0..2i64 {
        for x in 0..3i64 {
            let got = bilinear_interpolation(&img, x * SUBPIXELS, y * SUBPIXELS);
            assert_eq!(got, Some(rgb((10 * x + 100 * y) as u8, (5 * x) as u8, (7 * y) as u8)));
        }
    }
}

#[test]
fn sampling_between_pixels_blends_the_four_neighbours() {
    let img = gradient();
    let got = bilinear_interpolation(&img, SUBPIXELS / 2, SUBPIXELS / 2);
    // rows blend to (5, 2, 0) and (105, 2, 7); their mean is rounded down
    assert_eq!(got, Some(rgb(55, 2, 3)));
    let quarter = bilinear_interpolation(&img, SUBPIXELS + SUBPIXELS / 4, 0);
    assert_eq!(quarter, Some(rgb(12, 6, 0)));
}

#[test]
fn sampling_past_the_far_edges_returns_the_edge_pixel() {
    let img = gradient();
    let corner = Some(rgb(120, 10, 7));
    assert_eq!(bilinear_interpolation(&img, 8 * SUBPIXELS, 7 * SUBPIXELS), corner);
    assert_eq!(bilinear_interpolation(&img, 2 * SUBPIXELS, SUBPIXELS), corner);
    assert_eq!(bilinear_interpolation(&img, i64::MAX, i64::MAX), corner);
    assert_eq!(
        bilinear_interpolation(&img, 8 * SUBPIXELS, 0),
        bilinear_interpolation(&img, 2 * SUBPIXELS, 0)
    );
}

#[test]
fn sampling_at_the_last_column_and_row_does_not_divide_by_zero() {
    let img = gradient();
    assert_eq!(bilinear_interpolation(&img, 2 * SUBPIXELS, 0), Some(rgb(20, 10, 0)));
    assert_eq!(bilinear_interpolation(&img, 0, SUBPIXELS), Some(rgb(100, 0, 7)));
    assert_eq!(bilinear_interpolation(&img, 2 * SUBPIXELS, SUBPIXELS), Some(rgb(120, 10, 7)));
}

#[test]
fn sampling_before_the_near_edges_returns_the_edge_pixel() {
    let img = DynamicImage::ImageRgb8(RgbImage::from_fn(2, 1, |x, _| {
        if x == 0 {
            Rgb([100, 50, 7])
        } else {
            Rgb([50, 60, 7])
        }
    }));
    assert_eq!(bilinear_interpolation(&img, -5 * SUBPIXELS, 0), Some(rgb(100, 50, 7)));
    assert_eq!(bilinear_interpolation(&img, -SUBPIXELS / 2, 0), Some(rgb(100, 50, 7)));
    assert_eq!(bilinear_interpolation(&img, i64::MIN, 0), Some(rgb(100, 50, 7)));
}

#[test]
fn sampling_left_of_a_two_by_two_image_returns_the_first_pixel() {
    let img = DynamicImage::ImageRgb8(RgbImage::from_fn(2, 2, |x, y| match (x, y) {
        (0, 0) => Rgb([10, 20, 30]),
        (1, 0) => Rgb([40, 50, 60]),
        (0, 1) => Rgb([70, 80, 90]),
        _ => Rgb([200, 210, 220]),
    }));
    assert_eq!(bilinear_interpolation(&img, -5 * SUBPIXELS, 0), Some(rgb(10, 20, 30)));
    assert_eq!(bilinear_interpolation(&img, 0, -5 * SUBPIXELS), Some(rgb(10, 20, 30)));
    assert_eq!(bilinear_interpolation(&img, -1, -1), Some(rgb(10, 20, 30)));
    assert_eq!(bilinear_interpolation(&img, -5 * SUBPIXELS, SUBPIXELS), Some(rgb(70, 80, 90)));
    assert_eq!(bilinear_interpolation(&img, SUBPIXELS, -5 * SUBPIXELS), Some(rgb(40, 50, 60)));
}

#[test]
fn sampling_outside_equals_sampling_at_the_nearest_position_inside() {
    let img = gradient();
    let last_x = 2 * SUBPIXELS;
    let last_y = SUBPIXELS;
    let inside = [0, 1, SUBPIXELS / 3, SUBPIXELS, SUBPIXELS + 7, last_x];
    for &x in &inside {
        let y = x.min(last_y);
        assert_eq!(
            bilinear_interpolation(&img, x, -5 * SUBPIXELS),
            bilinear_interpolation(&img, x, 0)
        );
        assert_eq!(
            bilinear_interpolation(&img, x, last_y + 5 * SUBPIXELS),
            bilinear_interpolation(&img, x, last_y)
        );
        assert_eq!(
            bilinear_interpolation(&img, -5 * SUBPIXELS, y),
            bilinear_interpolation(&img, 0, y)
        );
        assert_eq!(
            bilinear_interpolation(&img, last_x + 5 * SUBPIXELS, y),
            bilinear_interpolation(&img, last_x, y)
        );
    }
    assert_eq!(bilinear_interpolation(&img, i64::MIN, i64::MIN), Some(rgb(0, 0, 0)));
    assert_eq!(bilinear_interpolation(&img, i64::MIN, i64::MAX), Some(rgb(100, 0, 7)));
    assert_eq!(bilinear_interpolation(&img, i64::MAX, i64::MIN), Some(rgb(20, 10, 0)));
}

#[test]
fn sample_lies_between_its_four_neighbours() {
    let img = DynamicImage::ImageRgb8(RgbImage::from_fn(2, 2, |x, y| match (x, y) {
        (0, 0) => Rgb([10, 20, 30]),
        (1, 0) => Rgb([40, 50, 60]),
        (0, 1) => Rgb([70, 80, 90]),
        _ => Rgb([200, 210, 220]),
    }));
    let steps = [-3 * SUBPIXELS, -1, 0, 1, SUBPIXELS / 2, SUBPIXELS - 1, SUBPIXELS, 9 * SUBPIXELS];
    for &x in &steps {
        for &y in &steps {
            let c = bilinear_interpolation(&img, x, y).unwrap();
            assert!((10..=200).contains(&c.r));
            assert!((20..=210).contains(&c.g));
            assert!((30..=220).contains(&c.b));
        }
    }
}

#[test]
fn sampling_a_single_pixel_image_returns_it_everywhere() {
    let img = DynamicImage::ImageRgb8(RgbImage::from_pixel(1, 1, Rgb([9, 8, 7])));
    for (x, y) in [(0, 0), (-5, 3), (i64::MIN, i64::MAX), (SUBPIXELS, -SUBPIXELS)] {
        assert_eq!(bilinear_interpolation(&img, x, y), Some(rgb(9, 8, 7)));
    }
}

#[test]
fn sampling_an_empty_image_gives_nothing() {
    assert_eq!(bilinear_interpolation(&DynamicImage::new_rgb8(0, 0), 0, 0), None);
    assert_eq!(bilinear_interpolation(&DynamicImage::new_rgb8(0, 3), 0, 0), None);
    assert_eq!(bilinear_interpolation(&DynamicImage::new_rgb8(3, 0), 0, 0), None);
}

#[test]
fn sampling_reads_other_pixel_formats_as_rgb() {
    let gray = DynamicImage::ImageLuma8(GrayImage::from_pixel(2, 2, Luma([77])));
    assert_eq!(bilinear_interpolation(&gray, SUBPIXELS / 3, SUBPIXELS / 5), Some(rgb(77, 77, 77)));
    let rgba = DynamicImage::ImageRgba8(RgbaImage::from_pixel(2, 2, Rgba([1, 2, 3, 4])));
    assert_eq!(bilinear_interpolation(&rgba, SUBPIXELS, SUBPIXELS), Some(rgb(1, 2, 3)));
}

#[test]
fn sampling_reads_columns_and_rows_in_the_right_order() {
    let img = gradient();
    assert_eq!(bilinear_interpolation(&img, SUBPIXELS, 0), Some(rgb(10, 5, 0)));
    assert_eq!(bilinear_interpolation(&img, 0, SUBPIXELS), Some(rgb(100, 0, 7)));
}
