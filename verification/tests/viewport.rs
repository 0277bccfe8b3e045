use avm::viewport::{background_index, correlate, correlate_viewport_png, viewport_anchors, CorrelationError, RgbImage};

fn png(image: &image::RgbImage) -> Vec<u8> {
    let mut bytes = Vec::new();
    image.write_to(&mut std::io::Cursor::new(&mut bytes), image::ImageFormat::Png).unwrap();
    bytes
}

fn raw(image: &image::RgbImage) -> RgbImage {
    RgbImage { width: image.width(), height: image.height(), bytes: image.as_raw().clone() }
}

#[test]
fn recovers_exact_viewport_offset_inside_host_frame() {
    let mut host = image::RgbImage::from_pixel(30, 20, image::Rgb([12, 20, 30]));
    let mut viewport = image::RgbImage::from_pixel(9, 7, image::Rgb([245, 245, 245]));
    for index in 0..7 {
        viewport.put_pixel(index + 1, index, image::Rgb([index as u8 * 19, 40, 210]));
    }
    image::imageops::replace(&mut host, &viewport, 13, 8);
    let correlation = correlate_viewport_png(&png(&host), &png(&viewport)).unwrap();
    assert_eq!((correlation.display_x, correlation.display_y), (13, 8));
    let pixels = (correlation.viewport_width as u128) * (correlation.viewport_height as u128);
    assert_eq!(correlation.exact_pixels as f64 / pixels as f64, 1.0);
    assert_eq!(correlation.absolute_error as f64 / (pixels * 3) as f64, 0.0);
    assert_eq!((correlation.host_width, correlation.host_height), (30, 20));
    assert_eq!((correlation.viewport_width, correlation.viewport_height), (9, 7));
}

#[test]
fn undecodable_images_are_named() {
    let host = image::RgbImage::from_pixel(4, 4, image::Rgb([1, 2, 3]));
    assert_eq!(correlate_viewport_png(b"not a png", &png(&host)), Err(CorrelationError::HostDecode));
    assert_eq!(correlate_viewport_png(&png(&host), b"not a png"), Err(CorrelationError::ViewportDecode));
    assert_eq!(CorrelationError::ViewportDecode.message(), "decode browser viewport PNG");
}

#[test]
fn viewport_must_fit_and_have_pixels() {
    let host = raw(&image::RgbImage::from_pixel(4, 4, image::Rgb([1, 2, 3])));
    let wide = raw(&image::RgbImage::from_pixel(5, 1, image::Rgb([1, 2, 3])));
    assert_eq!(correlate(&host, &wide), Err(CorrelationError::ViewportTooLarge));
    let empty = RgbImage { width: 0, height: 3, bytes: Vec::new() };
    assert_eq!(correlate(&host, &empty), Err(CorrelationError::EmptyViewport));
    assert_eq!(
        CorrelationError::ViewportTooLarge.message(),
        "browser viewport is larger than host framebuffer"
    );
}

#[test]
fn background_is_the_first_most_frequent_colour() {
    let mut image = image::RgbImage::from_pixel(3, 2, image::Rgb([9, 9, 9]));
    image.put_pixel(0, 0, image::Rgb([1, 1, 1]));
    image.put_pixel(1, 0, image::Rgb([2, 2, 2]));
    image.put_pixel(2, 0, image::Rgb([2, 2, 2]));
    image.put_pixel(0, 1, image::Rgb([1, 1, 1]));
    // colours 1 and 2 occur twice, 9 twice: the first pixel's colour wins the tie.
    assert_eq!(background_index(&raw(&image)), Some(0));
    image.put_pixel(0, 1, image::Rgb([2, 2, 2]));
    assert_eq!(background_index(&raw(&image)), Some(1));
    assert_eq!(background_index(&RgbImage { width: 0, height: 0, bytes: Vec::new() }), None);
}

#[test]
fn anchors_fall_back_to_a_grid_on_plain_viewports() {
    let plain = raw(&image::RgbImage::from_pixel(16, 16, image::Rgb([5, 5, 5])));
    let anchors = viewport_anchors(&plain, (5, 5, 5));
    // no pixel differs from the background: an eight-by-eight grid every second pixel.
    assert_eq!(anchors.len(), 64);
    assert_eq!(anchors[0], (0, 0, (5, 5, 5)));
    assert_eq!(anchors[1], (2, 0, (5, 5, 5)));
    assert_eq!(anchors[8], (0, 2, (5, 5, 5)));
    let mut busy = image::RgbImage::from_pixel(40, 40, image::Rgb([0, 0, 0]));
    for y in 0..40 {
        for x in 0..40 {
            if (x + y) % 2 == 0 {
                busy.put_pixel(x, y, image::Rgb([200, 0, 0]));
            }
        }
    }
    // 800 pixels differ from black: every second one is kept.
    let anchors = viewport_anchors(&raw(&busy), (0, 0, 0));
    assert_eq!(anchors.len(), 400);
    assert_eq!(anchors[0], (0, 0, (200, 0, 0)));
    assert_eq!(anchors[1], (4, 0, (200, 0, 0)));
}

#[test]
fn placement_prefers_the_exact_match_over_partial_ones() {
    let mut host = image::RgbImage::from_pixel(12, 6, image::Rgb([0, 0, 0]));
    let mut viewport = image::RgbImage::from_pixel(3, 3, image::Rgb([0, 0, 0]));
    viewport.put_pixel(1, 1, image::Rgb([250, 10, 10]));
    viewport.put_pixel(2, 2, image::Rgb([10, 250, 10]));
    image::imageops::replace(&mut host, &viewport, 7, 2);
    host.put_pixel(2, 2, image::Rgb([250, 10, 10]));
    let c = correlate(&raw(&host), &raw(&viewport)).unwrap();
    assert_eq!((c.display_x, c.display_y), (7, 2));
    assert_eq!(c.exact_pixels, 9);
    assert_eq!(c.absolute_error, 0);
    assert_eq!(c.anchor_count, 11);
}
