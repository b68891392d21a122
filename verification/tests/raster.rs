use autofilm::raster::{
    alpha_bounds, apply_opacity, apply_rounded_corners, opaque_bottom, shadow_silhouette, PixelBuffer,
};

fn filled(width: u32, height: u32, pixel: [u8; 4]) -> PixelBuffer {
    let data = (0..width * height).flat_map(|_| pixel).collect();
    PixelBuffer::from_raw(width, height, data).unwrap()
}

fn alpha(image: &PixelBuffer, x: u32, y: u32) -> u8 {
    image.data[(4 * (y * image.width + x) + 3) as usize]
}

#[test]
fn from_raw_checks_the_length() {
    assert!(PixelBuffer::from_raw(2, 2, vec![0; 16]).is_some());
    assert!(PixelBuffer::from_raw(2, 2, vec![0; 15]).is_none());
    assert!(PixelBuffer::from_raw(0, 5, vec![]).is_some());
}

#[test]
fn rounded_corners_clear_only_corner_pixels_outside_the_circle() {
    let mut card = filled(200, 300, [80, 160, 220, 255]);
    apply_rounded_corners(&mut card, 20);
    assert_eq!(alpha(&card, 0, 0), 0);
    assert_eq!(alpha(&card, 199, 0), 0);
    assert_eq!(alpha(&card, 0, 299), 0);
    assert_eq!(alpha(&card, 199, 299), 0);
    assert_eq!(alpha(&card, 100, 150), 255);
    assert_eq!(alpha(&card, 20, 20), 255);
    assert_eq!(alpha(&card, 0, 150), 255);
    // Colour channels are never touched.
    assert_eq!(card.data[0], 80);
    // Corner (0, 0): offset (20, 20) from the circle's center lies outside; (6, 6)
    // is at distance (14, 14), inside radius 20.
    assert_eq!(alpha(&card, 6, 6), 255);
}

#[test]
fn rounding_radius_is_capped_at_half_the_shorter_side() {
    let mut small = filled(4, 10, [1, 2, 3, 255]);
    apply_rounded_corners(&mut small, 100);
    // Radius becomes 2: (0, 0) is at distance (2, 2), outside; (1, 1) at (1, 1), inside.
    assert_eq!(alpha(&small, 0, 0), 0);
    assert_eq!(alpha(&small, 1, 1), 255);
    assert_eq!(alpha(&small, 0, 5), 255);
}

#[test]
fn opacity_scales_alpha_only() {
    let mut card = filled(3, 2, [80, 160, 220, 255]);
    apply_opacity(&mut card, 200);
    assert_eq!(alpha(&card, 1, 1), 200);
    assert_eq!(card.data[0], 80);
    let mut half = filled(1, 1, [0, 0, 0, 100]);
    apply_opacity(&mut half, 128);
    assert_eq!(alpha(&half, 0, 0), 50);
    let mut full = filled(1, 1, [0, 0, 0, 100]);
    apply_opacity(&mut full, 255);
    assert_eq!(alpha(&full, 0, 0), 100);
}

fn padded(width: u32, height: u32, left: u32, top: u32) -> PixelBuffer {
    let mut image = filled(width + left * 2, height + top * 2, [0, 0, 0, 0]);
    let w = image.width;
    for y in top..top + height {
        for x in left..left + width {
            let i = (4 * (y * w + x)) as usize;
            image.data[i..i + 4].copy_from_slice(&[80, 160, 220, 255]);
        }
    }
    image
}

#[test]
fn alpha_bounds_and_bottom_ignore_transparent_padding() {
    let image = padded(40, 60, 10, 8);
    let bounds = alpha_bounds(&image).unwrap();
    assert_eq!((bounds.left, bounds.right), (10, 49));
    assert_eq!(opaque_bottom(&image), 67);

    let faint = filled(5, 5, [0, 0, 0, 8]);
    assert!(alpha_bounds(&faint).is_none());
    assert_eq!(opaque_bottom(&faint), 0);
}

#[test]
fn shadow_silhouette_pads_and_caps_alpha() {
    let mut image = filled(2, 1, [200, 100, 50, 255]);
    image.data[7] = 40;
    let shadow = shadow_silhouette(&image, 3, 150);
    assert_eq!((shadow.width, shadow.height), (8, 7));
    assert_eq!(alpha(&shadow, 3, 3), 150);
    assert_eq!(alpha(&shadow, 4, 3), 40);
    assert_eq!(alpha(&shadow, 0, 0), 0);
    assert_eq!(alpha(&shadow, 5, 3), 0);
    assert!(shadow
        .data
        .chunks(4)
        .all(|pixel| pixel[0] == 0 && pixel[1] == 0 && pixel[2] == 0));
}
