use ray_tracer::{Canvas, Colour};

fn colour(r: f32, g: f32, b: f32) -> Colour {
    Colour::new(r.to_bits(), g.to_bits(), b.to_bits())
}

#[test]
fn new_makes_all_black_canvas() {
    let canvas = Canvas::new(10, 20);
    let black = colour(0.0, 0.0, 0.0);

    assert_eq!(canvas.width, 10);
    assert_eq!(canvas.height, 20);

    assert_eq!(canvas.pixels.len(), 200);

    for pixel in canvas.pixels {
        assert_eq!(pixel, black);
    }
}

#[test]
fn test_write_pixel() {
    let mut canvas = Canvas::new(2, 2);
    let red = colour(1.0, 0.0, 0.0);

    canvas.write_pixel(1, 1, &red);
    assert_eq!(canvas.pixels[3], red);

    canvas.write_pixel(0, 1, &red);
    assert_eq!(canvas.pixels[2], red);
}

#[test]
fn test_read_pixel() {
    let mut canvas = Canvas::new(2, 2);
    let red = colour(1.0, 0.0, 0.0);

    canvas.pixels[3] = red;
    assert_eq!(canvas.read_pixel(1, 1), red);

    canvas.pixels[2] = red;
    assert_eq!(canvas.read_pixel(0, 1), red);
}

#[test]
fn test_to_ppm_writes_ppm_header() {
    let canvas = Canvas::new(2, 2);
    let ppm = canvas.to_ppm();
    assert!(ppm.starts_with("P3\n2 2\n255\n"))
}

#[test]
fn test_to_ppm_writes_ppm_pixel_data() {
    let mut canvas = Canvas::new(5, 3);
    let c1 = colour(1.5, 0.0, 0.0);
    let c2 = colour(0.0, 0.5, 0.0);
    let c3 = colour(0.5, 0.0, 1.0);

    canvas.write_pixel(0, 0, &c1);
    canvas.write_pixel(2, 1, &c2);
    canvas.write_pixel(4, 2, &c3);

    let ppm = canvas.to_ppm();
    let mut iter = ppm.lines().skip(3);

    let expected_1 = "255 0 0 0 0 0 0 0 0 0 0 0 0 0 0";
    let expected_2 = "0 0 0 0 0 0 0 128 0 0 0 0 0 0 0";
    let expected_3 = "0 0 0 0 0 0 0 0 0 0 0 0 128 0 255";

    assert_eq!(iter.next(), Some(expected_1));
    assert_eq!(iter.next(), Some(expected_2));
    assert_eq!(iter.next(), Some(expected_3));
    assert_eq!(iter.next(), None);
}

#[test]
fn test_to_ppm_splits_long_lines() {
    let mut canvas = Canvas::new(10, 2);
    let c = colour(1.0, 0.8, 0.6);
    for i in 0..10 {
        for j in 0..2 {
            canvas.write_pixel(i, j, &c);
        }
    }

    let ppm = canvas.to_ppm();
    let mut iter = ppm.lines().skip(3);

    let expected_1 = "255 204 153 255 204 153 255 204 153 255 204 153 255 204 153 255 204";
    let expected_2 = "153 255 204 153 255 204 153 255 204 153 255 204 153";

    assert_eq!(iter.next(), Some(expected_1));
    assert_eq!(iter.next(), Some(expected_2));
    assert_eq!(iter.next(), Some(expected_1));
    assert_eq!(iter.next(), Some(expected_2));
    assert_eq!(iter.next(), None);
}

#[test]
fn test_to_ppm_has_trailing_newline() {
    let canvas = Canvas::new(10, 2);

    let ppm = canvas.to_ppm();
    assert!(ppm.ends_with("\n"));
}
