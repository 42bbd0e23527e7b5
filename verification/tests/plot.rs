use sierpinski::Canvas;
use sierpinski::ColorSource;
use sierpinski::Rgb;
use sierpinski::generate;
use sierpinski::initial_cursor;
use sierpinski::plot_corners;
use sierpinski::plot_dots;
use sierpinski::vertices;

fn rgb(r: u8, g: u8, b: u8) -> Rgb {
    Rgb { r, g, b }
}

#[test]
fn vertices_follow_the_formula() {
    let v = vertices(100, 100);
    assert_eq!(v[0], sierpinski::Point { x: 10, y: 90 });
    assert_eq!(v[1], sierpinski::Point { x: 90, y: 90 });
    assert_eq!(v[2], sierpinski::Point { x: 50, y: 10 });

    let v = vertices(640, 480);
    assert_eq!(v[0], sierpinski::Point { x: 64, y: 432 });
    assert_eq!(v[1], sierpinski::Point { x: 576, y: 432 });
    assert_eq!(v[2], sierpinski::Point { x: 320, y: 48 });
}

#[test]
fn vertices_are_deterministic() {
    for (w, h) in [(10u32, 10u32), (100, 100), (641, 479), (1920, 1080)] {
        assert_eq!(vertices(w, h), vertices(w, h));
        assert_eq!(initial_cursor(w, h), initial_cursor(w, h));
    }
}

#[test]
fn cursor_starts_at_the_center_one_row_up() {
    assert_eq!(initial_cursor(100, 100), sierpinski::Point { x: 50, y: 49 });
    assert_eq!(initial_cursor(11, 13), sierpinski::Point { x: 5, y: 5 });
}

#[test]
fn zero_dots_paint_exactly_the_three_corners() {
    let mut rng = rand::thread_rng();
    let color = rgb(7, 8, 9);
    let img = generate(100, 100, 0, None, ColorSource::Constant(color), &mut rng);
    assert_eq!(img.width, 100);
    assert_eq!(img.height, 100);
    let corners = [(10u32, 90u32), (90, 90), (50, 10)];
    for y in 0..100u32 {
        for x in 0..100u32 {
            let expected = if corners.contains(&(x, y)) {
                color
            } else {
                rgb(0, 0, 0)
            };
            assert_eq!(img.get_pixel(x, y), expected, "pixel ({x}, {y})");
        }
    }
}

#[test]
fn returned_canvas_has_width_times_height_pixels() {
    let mut rng = rand::thread_rng();
    for (w, h) in [(10u32, 10u32), (37, 13), (100, 50), (11, 64), (255, 19)] {
        for dots in [0u64, 1, 17, 999, 1000, 1001] {
            let img = generate(w, h, dots, None, ColorSource::Constant(rgb(1, 2, 3)), &mut rng);
            assert_eq!(img.width, w);
            assert_eq!(img.height, h);
            assert_eq!(img.pixels.len(), 3 * (w as usize) * (h as usize));
            // nothing outside the vertices' bounding box is ever painted
            let (lo_x, hi_x) = (w / 10, w - w / 10);
            let (lo_y, hi_y) = (h / 10, h - h / 10);
            for y in 0..h {
                for x in 0..w {
                    if img.get_pixel(x, y) != rgb(0, 0, 0) {
                        assert!(lo_x <= x && x <= hi_x && lo_y <= y && y <= hi_y);
                    }
                }
            }
        }
    }
}

#[test]
fn long_walk_stays_inside_the_bounding_box() {
    let mut rng = rand::thread_rng();
    let img = generate(100, 100, 100000, None, ColorSource::Constant(rgb(255, 255, 255)), &mut rng);
    let mut painted = 0u64;
    for y in 0..100u32 {
        for x in 0..100u32 {
            let p = img.get_pixel(x, y);
            if p != rgb(0, 0, 0) {
                painted += 1;
                assert!((10..=90).contains(&x), "painted pixel ({x}, {y}) left the box");
                assert!((10..=90).contains(&y), "painted pixel ({x}, {y}) left the box");
            }
        }
    }
    assert!(painted >= 3);
}

#[test]
fn every_painted_pixel_has_the_requested_color() {
    let mut rng = rand::thread_rng();
    let color = rgb(12, 34, 56);
    let img = generate(50, 40, 2500, None, ColorSource::Constant(color), &mut rng);
    for y in 0..40u32 {
        for x in 0..50u32 {
            let p = img.get_pixel(x, y);
            assert!(p == rgb(0, 0, 0) || p == color, "pixel ({x}, {y}) holds {p:?}");
        }
    }
}

#[test]
fn corners_sample_the_source_image() {
    let w = 10u32;
    let h = 10u32;
    let mut bytes = Vec::new();
    for i in 0..(w * h) {
        bytes.push((i % 251) as u8);
        bytes.push(((i * 3) % 251) as u8);
        bytes.push(((i * 7) % 251) as u8);
    }
    let seed = Canvas { width: w, height: h, pixels: bytes.clone() };
    let sample = Canvas { width: w, height: h, pixels: bytes.clone() };
    let mut rng = rand::thread_rng();
    let img = generate(w, h, 0, Some(seed), ColorSource::Sampled(sample), &mut rng);
    // the three corners show the source image's own pixels
    for (x, y) in [(1u32, 9u32), (9, 9), (5, 1)] {
        let i = ((y * w + x) * 3) as usize;
        assert_eq!(img.get_pixel(x, y), rgb(bytes[i], bytes[i + 1], bytes[i + 2]));
    }
}

#[test]
fn plot_dots_paints_the_cursor_first() {
    let mut canvas = Canvas::new(100, 100);
    let mut cursor = initial_cursor(100, 100);
    let color = ColorSource::Constant(rgb(200, 100, 50));
    let mut rng = rand::thread_rng();
    plot_dots(&mut canvas, &mut cursor, 1, &color, &mut rng);
    assert_eq!(canvas.get_pixel(50, 49), rgb(200, 100, 50));
}

#[test]
fn plot_corners_touches_only_the_corners() {
    let mut canvas = Canvas::new(20, 30);
    plot_corners(&mut canvas, &ColorSource::Constant(rgb(9, 9, 9)));
    let mut painted = Vec::new();
    for y in 0..30u32 {
        for x in 0..20u32 {
            if canvas.get_pixel(x, y) != rgb(0, 0, 0) {
                painted.push((x, y));
            }
        }
    }
    painted.sort();
    assert_eq!(painted, vec![(2, 27), (10, 3), (18, 27)]);
}
