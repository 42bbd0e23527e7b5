use sierpinski::Canvas;
use sierpinski::Rgb;
use sierpinski::init_canvas;

#[test]
fn blank_canvas_is_black() {
    let c = init_canvas(4, 3, None);
    assert_eq!(c.width, 4);
    assert_eq!(c.height, 3);
    assert_eq!(c.pixels, vec![0u8; 36]);
}

#[test]
fn set_and_get_pixel_round_trip() {
    let mut c = Canvas::new(5, 4);
    c.set_pixel(3, 2, Rgb { r: 1, g: 2, b: 3 });
    assert_eq!(c.get_pixel(3, 2), Rgb { r: 1, g: 2, b: 3 });
    assert_eq!(c.get_pixel(2, 3), Rgb { r: 0, g: 0, b: 0 });
    assert_eq!(c.get_pixel(0, 0), Rgb { r: 0, g: 0, b: 0 });
}

#[test]
fn two_by_two_seed_matches_the_image_crate() {
    // the library's grayscale-and-darken must agree with what the image
    // crate computes for the same four pixels
    let bytes: Vec<u8> = vec![
        10, 20, 30, // dark pixel, luma under 50: clamps to zero
        200, 100, 50, // mixed pixel
        255, 255, 255, // white: luma 255
        0, 255, 0, // pure green
    ];
    let seed = Canvas { width: 2, height: 2, pixels: bytes.clone() };
    let base = init_canvas(2, 2, Some(&seed));

    let img = image::RgbImage::from_raw(2, 2, bytes).unwrap();
    let expected = image::DynamicImage::ImageRgb8(img).grayscale().brighten(-50).into_rgb8();
    assert_eq!(base.pixels, expected.into_raw());
}

#[test]
fn seed_pixels_are_grayed_and_darkened() {
    // luma(200, 100, 50) = (2126*200 + 7152*100 + 722*50) / 10000 = 117
    // darkened by 50: 67 on all three channels
    let seed = Canvas { width: 1, height: 1, pixels: vec![200, 100, 50] };
    let base = init_canvas(1, 1, Some(&seed));
    assert_eq!(base.pixels, vec![67, 67, 67]);

    // luma(10, 20, 30) = 18, clamped to 0 after darkening
    let seed = Canvas { width: 1, height: 1, pixels: vec![10, 20, 30] };
    let base = init_canvas(1, 1, Some(&seed));
    assert_eq!(base.pixels, vec![0, 0, 0]);
}

#[test]
fn larger_seed_matches_the_image_crate() {
    let mut bytes = Vec::new();
    for i in 0..(16u32 * 12 * 3) {
        bytes.push((i * 31 % 256) as u8);
    }
    let seed = Canvas { width: 16, height: 12, pixels: bytes.clone() };
    let base = init_canvas(16, 12, Some(&seed));

    let img = image::RgbImage::from_raw(16, 12, bytes).unwrap();
    let expected = image::DynamicImage::ImageRgb8(img).grayscale().brighten(-50).into_rgb8();
    assert_eq!(base.pixels, expected.into_raw());
}
