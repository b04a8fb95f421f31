use raytracer::image::{channel, push_decimal, write_colour, write_header, Image, Rgb8};

fn text(bytes: &[u8]) -> String {
    String::from_utf8(bytes.to_vec()).unwrap()
}

#[test]
fn decimal_digits() {
    let mut out = Vec::new();
    push_decimal(&mut out, 0);
    assert_eq!(text(&out), "0");
    let mut out = Vec::new();
    push_decimal(&mut out, 7);
    push_decimal(&mut out, 1920);
    assert_eq!(text(&out), "71920");
}

#[test]
fn pixel_line_text() {
    let mut out = Vec::new();
    write_colour(&mut out, Rgb8 { r: 255, g: 0, b: 37 });
    assert_eq!(text(&out), "255 0 37\n");
}

#[test]
fn header_text() {
    let mut out = Vec::new();
    write_header(&mut out, 400, 225);
    assert_eq!(text(&out), "P3\n400 225\n255\n");
}

#[test]
fn full_intensity_maps_to_255_and_zero_to_zero() {
    // 256 * sqrt(1.0) and 256 * sqrt(0.0), truncated
    assert_eq!(channel(256), 255);
    assert_eq!(channel(0), 0);
}

#[test]
fn channel_clamps_both_ends() {
    assert_eq!(channel(-5), 0);
    assert_eq!(channel(i64::MIN), 0);
    assert_eq!(channel(255), 255);
    assert_eq!(channel(100), 100);
    assert_eq!(channel(i64::MAX), 255);
    assert_eq!(Rgb8::from_scaled(300, 128, -1), Rgb8 { r: 255, g: 128, b: 0 });
}

#[test]
fn raster_order_positions() {
    let mut im = Image::new(3, 2);
    let mut seen = Vec::new();
    let mut k = 0u8;
    while let Some((i, j)) = im.next_position() {
        seen.push((i, j));
        im.push(Rgb8 { r: k, g: 0, b: 0 });
        k += 1;
    }
    assert_eq!(seen, vec![(0, 0), (1, 0), (2, 0), (0, 1), (1, 1), (2, 1)]);
    assert!(im.is_complete());
    assert_eq!(im.pixels().len(), 6);
    assert_eq!(im.get(2, 0), Some(Rgb8 { r: 2, g: 0, b: 0 }));
    assert_eq!(im.get(0, 1), Some(Rgb8 { r: 3, g: 0, b: 0 }));
    assert_eq!(im.get(3, 0), None);
    assert_eq!(im.get(0, 2), None);
}

#[test]
fn unwritten_pixel_is_absent() {
    let mut im = Image::new(2, 2);
    assert!(!im.is_complete());
    assert_eq!(im.get(0, 0), None);
    im.push(Rgb8 { r: 9, g: 8, b: 7 });
    assert_eq!(im.get(0, 0), Some(Rgb8 { r: 9, g: 8, b: 7 }));
    assert_eq!(im.get(1, 0), None);
    assert_eq!(im.next_position(), Some((1, 0)));
}

#[test]
fn single_pixel_image() {
    let mut im = Image::new(1, 1);
    assert_eq!(im.width(), 1);
    assert_eq!(im.height(), 1);
    assert_eq!(im.next_position(), Some((0, 0)));
    im.push(Rgb8 { r: 1, g: 2, b: 3 });
    assert_eq!(im.next_position(), None);
    assert_eq!(text(&im.to_ppm()), "P3\n1 1\n255\n1 2 3\n");
}

#[test]
fn ppm_text_of_small_image() {
    let mut im = Image::new(2, 2);
    im.push(Rgb8 { r: 255, g: 255, b: 255 });
    im.push(Rgb8 { r: 0, g: 0, b: 0 });
    im.push(Rgb8 { r: 10, g: 20, b: 30 });
    im.push(Rgb8 { r: 127, g: 178, b: 255 });
    assert_eq!(
        text(&im.to_ppm()),
        "P3\n2 2\n255\n255 255 255\n0 0 0\n10 20 30\n127 178 255\n"
    );
}

#[test]
fn empty_image_is_complete_at_once() {
    let im = Image::new(0, 1);
    assert!(im.is_complete());
    assert_eq!(im.next_position(), None);
    assert_eq!(im.get(0, 0), None);
    assert_eq!(text(&im.to_ppm()), "P3\n0 1\n255\n");
}
