use autofilm::raster::PixelBuffer;
use autofilm::theme::{dominant_color, is_suitable_theme_color, text_color, theme_of_pixels};

fn rgb_image(width: u32, height: u32, color: impl Fn(u32, u32) -> [u8; 3]) -> PixelBuffer {
    let mut data = Vec::new();
    for y in 0..height {
        for x in 0..width {
            let [r, g, b] = color(x, y);
            data.extend_from_slice(&[r, g, b, 255]);
        }
    }
    PixelBuffer::from_raw(width, height, data).unwrap()
}

#[test]
fn dominant_color_ignores_black_white_and_gray() {
    let image = rgb_image(100, 100, |x, y| {
        if y >= 70 {
            [224, 224, 224]
        } else if x < 70 {
            [32, 128, 224]
        } else {
            [16, 16, 16]
        }
    });

    assert_eq!(dominant_color(&image), [32, 128, 224, 255]);
}

#[test]
fn dominant_color_uses_stable_fallback() {
    let image = rgb_image(20, 20, |_, _| [240, 240, 240]);

    assert_eq!(dominant_color(&image), [96, 96, 96, 255]);
}

fn float_suitability(color: [u8; 3]) -> bool {
    let [red, green, blue] = color;
    let maximum = red.max(green).max(blue) as f32 / 255.0;
    let minimum = red.min(green).min(blue) as f32 / 255.0;
    let saturation = if maximum == 0.0 {
        0.0
    } else {
        (maximum - minimum) / maximum
    };
    let luminance = (0.299 * red as f32 + 0.587 * green as f32 + 0.114 * blue as f32) / 255.0;
    (0.16..=0.86).contains(&luminance) && saturation >= 0.16
}

#[test]
fn integer_suitability_matches_single_precision_formula_everywhere() {
    for r in 0..=255u8 {
        for g in 0..=255u8 {
            for b in 0..=255u8 {
                assert_eq!(
                    is_suitable_theme_color([r, g, b]),
                    float_suitability([r, g, b]),
                    "color {r} {g} {b}"
                );
            }
        }
    }
}

#[test]
fn most_used_suitable_color_wins_and_ties_go_to_the_lowest_entry() {
    // Two suitable colors, the second used more often.
    let mut rgb = Vec::new();
    for _ in 0..3 {
        rgb.extend_from_slice(&[200, 40, 40]);
    }
    for _ in 0..5 {
        rgb.extend_from_slice(&[40, 200, 40]);
    }
    assert_eq!(theme_of_pixels(&rgb), [32, 192, 32, 255]);

    // Equal counts: the lower palette entry (smaller red) is kept.
    let mut tie = Vec::new();
    tie.extend_from_slice(&[200, 40, 40]);
    tie.extend_from_slice(&[40, 200, 40]);
    assert_eq!(theme_of_pixels(&tie), [32, 192, 32, 255]);

    // A trailing partial pixel is ignored; no pixels gives the fallback.
    assert_eq!(theme_of_pixels(&vec![200, 40]), [96, 96, 96, 255]);
}

#[test]
fn title_color_matches_single_precision_luminance_everywhere() {
    for r in 0..=255u8 {
        for g in 0..=255u8 {
            for b in 0..=255u8 {
                let luminance =
                    (0.299 * r as f32 + 0.587 * g as f32 + 0.114 * b as f32) / 255.0;
                let expected = if luminance > 0.55 {
                    [20, 20, 20, 255]
                } else {
                    [255, 255, 255, 255]
                };
                assert_eq!(text_color([r, g, b, 255]), expected, "color {r} {g} {b}");
            }
        }
    }
}
