use vstd::prelude::*;

use crate::raster::PixelBuffer;

verus! {

/// Whether a color suits as the theme of a poster background: its luminance
/// `0.299 r + 0.587 g + 0.114 b` lies between 16% and 86% of full scale, and its
/// saturation `(max - min) / max` is at least 16%.
///
/// The comparisons decide as the single-precision formula decides: where a
/// color lies exactly on a bound, the rounding of that formula puts it on one
/// side, and the listed cases record which.
pub open spec fn spec_is_suitable(r: u8, g: u8, b: u8) -> bool {
    let l = 299 * r + 587 * g + 114 * b;
    let mx = if r >= g && r >= b {
        r
    } else if g >= b {
        g
    } else {
        b
    };
    let mn = if r <= g && r <= b {
        r
    } else if g <= b {
        g
    } else {
        b
    };
    let bright_enough = 40800 <= l && (l < 219300 || (l == 219300 && !((r == 169 && g == 251 && b
        == 188) || (r == 195 && g == 243 && b == 161) || (r == 221 && g == 235 && b == 134))));
    let colorful_enough = 25 * (mx - mn) > 4 * mx || (25 * (mx - mn) == 4 * mx && (mx == 75 || mx
        == 125 || mx == 150 || mx == 225 || mx == 250));
    bright_enough && colorful_enough
}

/// Whether a color suits as the theme of a poster background.
pub fn is_suitable_theme_color(color: [u8; 3]) -> (res: bool)
    ensures
        res == spec_is_suitable(color@[0], color@[1], color@[2]),
{
    let r = color[0];
    let g = color[1];
    let b = color[2];
    let l: u32 = 299 * (r as u32) + 587 * (g as u32) + 114 * (b as u32);
    let mx: u32 = if r >= g && r >= b {
        r as u32
    } else if g >= b {
        g as u32
    } else {
        b as u32
    };
    let mn: u32 = if r <= g && r <= b {
        r as u32
    } else if g <= b {
        g as u32
    } else {
        b as u32
    };
    let bright_enough = 40800 <= l && (l < 219300 || (l == 219300 && !((r == 169 && g == 251 && b
        == 188) || (r == 195 && g == 243 && b == 161) || (r == 221 && g == 235 && b == 134))));
    let colorful_enough = 25 * (mx - mn) > 4 * mx || (25 * (mx - mn) == 4 * mx && (mx == 75 || mx
        == 125 || mx == 150 || mx == 225 || mx == 250));
    bright_enough && colorful_enough
}

/// The palette entry (0 to 511) of an RGB pixel, after each channel is
/// quantized down to a multiple of 32.
pub open spec fn pixel_entry(rgb: Seq<u8>, p: int) -> int {
    (rgb[3 * p] / 32) * 64 + (rgb[3 * p + 1] / 32) * 8 + rgb[3 * p + 2] / 32
}

/// The quantized color of a palette entry.
pub open spec fn entry_color(k: int) -> (u8, u8, u8) {
    (((k / 64) * 32) as u8, (((k / 8) % 8) * 32) as u8, ((k % 8) * 32) as u8)
}

/// The number of pixels among the first `n` that fall in palette entry `k`.
pub open spec fn entry_count(rgb: Seq<u8>, k: int, n: int) -> nat
    decreases n,
{
    if n <= 0 {
        0
    } else {
        entry_count(rgb, k, n - 1) + if pixel_entry(rgb, n - 1) == k {
            1nat
        } else {
            0nat
        }
    }
}

/// The number of whole pixels in RGB bytes.
pub open spec fn pixel_total(rgb: Seq<u8>) -> int {
    (rgb.len() / 3) as int
}

/// Whether a palette entry may be chosen: it is used and suits as a theme.
pub open spec fn is_candidate(rgb: Seq<u8>, k: int) -> bool {
    &&& entry_count(rgb, k, pixel_total(rgb)) > 0
    &&& spec_is_suitable(entry_color(k).0, entry_color(k).1, entry_color(k).2)
}

/// The most used candidate among the entries below `n`; among equally used
/// ones, the lowest entry.
pub open spec fn best_entry(rgb: Seq<u8>, n: int) -> Option<int>
    decreases n,
{
    if n <= 0 {
        None
    } else {
        let below = best_entry(rgb, n - 1);
        if is_candidate(rgb, n - 1) && (below is None || entry_count(rgb, n - 1, pixel_total(rgb))
            > entry_count(rgb, below->Some_0, pixel_total(rgb))) {
            Some(n - 1)
        } else {
            below
        }
    }
}

/// The theme color of RGB pixels: the most used suitable quantized color,
/// opaque, or opaque mid gray where no used color suits.
pub open spec fn spec_theme_of(rgb: Seq<u8>) -> Seq<u8> {
    match best_entry(rgb, 512) {
        Some(k) => seq![entry_color(k).0, entry_color(k).1, entry_color(k).2, 255u8],
        None => seq![96u8, 96u8, 96u8, 255u8],
    }
}

/// What the image library's `thumbnail(max_width, max_height)` of an RGBA
/// image gives as RGB bytes.
pub uninterp spec fn thumbnail_rgb_of(width: u32, height: u32, data: Seq<u8>, max_width: u32, max_height: u32) -> Seq<u8>;

/// Shrinks an image to fit in `max_width` by `max_height` pixels with
/// `image`'s `DynamicImage::thumbnail` and returns its RGB bytes. The result is
/// named, not described: it depends on the size, the bytes and the bounds
/// alone. The bounds are kept small, as `thumbnail` also enlarges an image
/// that is smaller than them.
#[verifier::external_body]
fn thumbnail_rgb(image: &PixelBuffer, max_width: u32, max_height: u32) -> (rgb: Vec<u8>)
    requires
        image.wf(),
        max_width <= 1024,
        max_height <= 1024,
    ensures
        rgb@ == thumbnail_rgb_of(image.width, image.height, image.data@, max_width, max_height),
{
    let buffer = image::RgbaImage::from_raw(image.width, image.height, image.data.clone()).unwrap();
    image::DynamicImage::ImageRgba8(buffer).thumbnail(max_width, max_height).to_rgb8().into_raw()
}

fn suitable_entry(k: usize) -> (res: bool)
    requires
        k < 512,
    ensures
        res == spec_is_suitable(entry_color(k as int).0, entry_color(k as int).1, entry_color(k as int).2),
{
    let r = ((k / 64) * 32) as u8;
    let g = (((k / 8) % 8) * 32) as u8;
    let b = ((k % 8) * 32) as u8;
    is_suitable_theme_color([r, g, b])
}

/// Picks the theme color of RGB pixels: the most used suitable quantized
/// color, or mid gray where none suits.
pub fn theme_of_pixels(rgb: &Vec<u8>) -> (res: [u8; 4])
    ensures
        res@ == spec_theme_of(rgb@),
{
    let total = rgb.len() / 3;
    let mut counts: Vec<usize> = Vec::new();
    let mut k: usize = 0;
    while k < 512
        invariant
            k <= 512,
            counts@.len() == k,
            forall|j: int| 0 <= j < k ==> counts@[j] == 0,
        decreases 512 - k,
    {
        counts.push(0);
        k = k + 1;
    }
    let mut p: usize = 0;
    while p < total
        invariant
            total == pixel_total(rgb@),
            p <= total,
            counts@.len() == 512,
            forall|j: int| 0 <= j < 512 ==> counts@[j] == entry_count(rgb@, j, p as int),
            forall|j: int| 0 <= j < 512 ==> counts@[j] <= p,
        decreases total - p,
    {
        assert(3 * p + 2 < rgb.len()) by (nonlinear_arith)
            requires
                p < total,
                total == rgb.len() / 3,
        ;
        let r = rgb[3 * p];
        let g = rgb[3 * p + 1];
        let b = rgb[3 * p + 2];
        let entry: usize = (r / 32) as usize * 64 + (g / 32) as usize * 8 + (b / 32) as usize;
        assert(entry == pixel_entry(rgb@, p as int));
        let current = counts[entry];
        counts.set(entry, current + 1);
        p = p + 1;
    }
    let mut best: Option<usize> = None;
    let mut k: usize = 0;
    while k < 512
        invariant
            k <= 512,
            total == pixel_total(rgb@),
            counts@.len() == 512,
            forall|j: int| 0 <= j < 512 ==> counts@[j] == entry_count(rgb@, j, total as int),
            best matches Some(b) ==> b < 512,
            match best {
                Some(b) => best_entry(rgb@, k as int) == Some(b as int),
                None => best_entry(rgb@, k as int) is None,
            },
        decreases 512 - k,
    {
        if counts[k] > 0 && suitable_entry(k) {
            match best {
                Some(b) => {
                    if counts[k] > counts[b] {
                        best = Some(k);
                    }
                },
                None => {
                    best = Some(k);
                },
            }
        }
        k = k + 1;
    }
    match best {
        Some(b) => {
            let r = ((b / 64) * 32) as u8;
            let g = (((b / 8) % 8) * 32) as u8;
            let bl = ((b % 8) * 32) as u8;
            let res = [r, g, bl, 255u8];
            assert(res@ =~= spec_theme_of(rgb@));
            res
        },
        None => {
            let res = [96u8, 96u8, 96u8, 255u8];
            assert(res@ =~= spec_theme_of(rgb@));
            res
        },
    }
}

/// The theme color of an image: the most used suitable color of its
/// thumbnail within 96 by 96 pixels, quantized to multiples of 32, or mid gray where none suits.
pub fn dominant_color(image: &PixelBuffer) -> (res: [u8; 4])
    requires
        image.wf(),
    ensures
        res@ == spec_theme_of(thumbnail_rgb_of(image.width, image.height, image.data@, 96, 96)),
{
    let rgb = thumbnail_rgb(image, 96, 96);
    theme_of_pixels(&rgb)
}

/// The theme color is opaque, and it is either mid gray, where no used
/// quantized color suits, or a used suitable color that no other suitable
/// color is used more often than.
pub proof fn lemma_theme_is_most_used_suitable(rgb: Seq<u8>)
    ensures
        spec_theme_of(rgb)[3] == 255,
        best_entry(rgb, 512) is None <==> forall|k: int| 0 <= k < 512 ==> !is_candidate(rgb, k),
        best_entry(rgb, 512) matches Some(b) ==> {
            &&& 0 <= b < 512
            &&& is_candidate(rgb, b)
            &&& forall|k: int|
                0 <= k < 512 && is_candidate(rgb, k) ==> entry_count(rgb, k, pixel_total(rgb))
                    <= entry_count(rgb, b, pixel_total(rgb))
        },
{
    lemma_best_entry(rgb, 512);
}

proof fn lemma_best_entry(rgb: Seq<u8>, n: int)
    requires
        0 <= n,
    ensures
        best_entry(rgb, n) is None <==> forall|k: int| 0 <= k < n ==> !is_candidate(rgb, k),
        best_entry(rgb, n) matches Some(b) ==> {
            &&& 0 <= b < n
            &&& is_candidate(rgb, b)
            &&& forall|k: int|
                0 <= k < n && is_candidate(rgb, k) ==> entry_count(rgb, k, pixel_total(rgb))
                    <= entry_count(rgb, b, pixel_total(rgb))
        },
    decreases n,
{
    if n > 0 {
        lemma_best_entry(rgb, n - 1);
    }
}

/// Whether a color is bright enough for dark text: its luminance
/// `0.299 r + 0.587 g + 0.114 b` is above 55% of full scale, decided as the
/// single-precision formula decides (on the exact bound, the listed colors
/// round above it).
pub open spec fn spec_is_bright(r: u8, g: u8, b: u8) -> bool {
    let l = 299 * r + 587 * g + 114 * b;
    l > 140250 || (l == 140250 && ((r == 61 && g == 203 && b == 25) || (r == 80 && g == 184 && b
        == 73) || (r == 106 && g == 176 && b == 46) || (r == 188 && g == 142 && b == 6)))
}

/// The title color for a background of the given theme color: near-black on
/// bright themes, white otherwise.
pub fn text_color(theme: [u8; 4]) -> (res: [u8; 4])
    ensures
        res@ == if spec_is_bright(theme@[0], theme@[1], theme@[2]) {
            seq![20u8, 20u8, 20u8, 255u8]
        } else {
            seq![255u8, 255u8, 255u8, 255u8]
        },
{
    let r = theme[0];
    let g = theme[1];
    let b = theme[2];
    let l: u32 = 299 * (r as u32) + 587 * (g as u32) + 114 * (b as u32);
    let bright = l > 140250 || (l == 140250 && ((r == 61 && g == 203 && b == 25) || (r == 80 && g
        == 184 && b == 73) || (r == 106 && g == 176 && b == 46) || (r == 188 && g == 142 && b
        == 6)));
    if bright {
        let res = [20u8, 20u8, 20u8, 255u8];
        assert(res@ =~= seq![20u8, 20u8, 20u8, 255u8]);
        res
    } else {
        let res = [255u8, 255u8, 255u8, 255u8];
        assert(res@ =~= seq![255u8, 255u8, 255u8, 255u8]);
        res
    }
}

} // verus!
