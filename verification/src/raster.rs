use vstd::prelude::*;

verus! {

/// An RGBA image with eight bits per channel, stored row by row, four bytes
/// per pixel.
#[derive(Debug, Clone)]
pub struct PixelBuffer {
    pub width: u32,
    pub height: u32,
    pub data: Vec<u8>,
}

impl PixelBuffer {
    /// The buffer holds exactly four bytes for each of its pixels.
    pub open spec fn wf(&self) -> bool {
        self.data.len() == 4 * ((self.width as int) * (self.height as int))
    }

    /// The byte index of channel `c` of the pixel at column `x`, row `y`.
    pub open spec fn offset(&self, x: int, y: int, c: int) -> int {
        4 * (y * self.width + x) + c
    }

    /// Channel `c` of the pixel at column `x`, row `y`.
    pub open spec fn channel(&self, x: int, y: int, c: int) -> u8 {
        self.data@[self.offset(x, y, c)]
    }

    /// Wraps raw RGBA bytes, if they are exactly enough for the given size.
    pub fn from_raw(width: u32, height: u32, data: Vec<u8>) -> (res: Option<PixelBuffer>)
        ensures
            res is Some <==> data.len() == 4 * ((width as int) * (height as int)),
            res matches Some(b) ==> b.wf() && b.width == width && b.height == height && b.data
                == data,
    {
        let w = width as u64;
        let h = height as u64;
        assert(w * h <= 0xffff_ffff * 0xffff_ffff) by (nonlinear_arith)
            requires
                w <= 0xffff_ffff,
                h <= 0xffff_ffff,
        ;
        let pixels = w * h;
        assert(pixels == (width as int) * (height as int)) by (nonlinear_arith)
            requires
                pixels == w * h,
                w == width as int,
                h == height as int,
        ;
        if pixels <= (usize::MAX / 4) as u64 && data.len() as u64 == 4 * pixels {
            Some(PixelBuffer { width, height, data })
        } else {
            assert(data.len() != 4 * ((width as int) * (height as int))) by {
                if pixels > (usize::MAX / 4) as u64 {
                    assert(4 * pixels > usize::MAX);
                }
            }
            None
        }
    }
}


/// Distinct pixels and channels of a buffer sit at distinct bytes, all inside it.
pub proof fn lemma_offset(width: int, height: int, x: int, y: int, c: int, x2: int, y2: int, c2: int)
    requires
        0 <= x < width,
        0 <= y < height,
        0 <= c < 4,
        0 <= x2 < width,
        0 <= y2 < height,
        0 <= c2 < 4,
    ensures
        0 <= 4 * (y * width + x) + c < 4 * (width * height),
        4 * (y * width + x) + c == 4 * (y2 * width + x2) + c2 ==> (x == x2 && y == y2 && c == c2),
{
    assert(y * width + x < width * height) by (nonlinear_arith)
        requires
            0 <= x < width,
            0 <= y < height,
    ;
    assert(0 <= y * width) by (nonlinear_arith)
        requires
            0 <= x < width,
            0 <= y,
    ;
    if 4 * (y * width + x) + c == 4 * (y2 * width + x2) + c2 {
        assert(c == c2);
        assert(y * width + x == y2 * width + x2);
        assert(y == y2 && x == x2) by (nonlinear_arith)
            requires
                y * width + x == y2 * width + x2,
                0 <= x < width,
                0 <= x2 < width,
                0 <= y,
                0 <= y2,
        ;
    }
}

/// The radius actually used for rounding: at most half of either side.
pub open spec fn effective_radius(width: int, height: int, radius: int) -> int {
    let half = if width / 2 <= height / 2 {
        width / 2
    } else {
        height / 2
    };
    if radius <= half {
        radius
    } else {
        half
    }
}

/// For a pixel in one of the four corner squares of side `r`, its distance,
/// along each axis, from the center of that corner's rounding circle.
pub open spec fn corner_distance(width: int, height: int, r: int, x: int, y: int) -> Option<(int, int)> {
    if x < r && y < r {
        Some((r - x, r - y))
    } else if x >= width - r && y < r {
        Some((x - (width - r - 1), r - y))
    } else if x < r && y >= height - r {
        Some((r - x, y - (height - r - 1)))
    } else if x >= width - r && y >= height - r {
        Some((x - (width - r - 1), y - (height - r - 1)))
    } else {
        None
    }
}

/// Whether rounding the corners with the given radius makes a pixel transparent:
/// it lies in a corner square, outside the rounding circle.
pub open spec fn is_cut(width: int, height: int, radius: int, x: int, y: int) -> bool {
    let r = effective_radius(width, height, radius);
    match corner_distance(width, height, r, x, y) {
        Some(d) => d.0 * d.0 + d.1 * d.1 > r * r,
        None => false,
    }
}

/// Whether a pixel counts as visible: its alpha is above 8.
pub open spec fn is_visible(image: PixelBuffer, x: int, y: int) -> bool {
    image.channel(x, y, 3) > 8
}

/// Whether some pixel of the image is visible.
pub open spec fn has_visible(image: PixelBuffer) -> bool {
    exists|x: int, y: int| 0 <= x < image.width && 0 <= y < image.height && is_visible(image, x, y)
}

/// Whether some pixel in column `x` is visible.
pub open spec fn column_has_visible(image: PixelBuffer, x: int) -> bool {
    exists|y: int| 0 <= y < image.height && is_visible(image, x, y)
}

/// The columns of the leftmost and rightmost visible pixels of an image.
#[derive(Debug, Clone, Copy)]
pub struct AlphaBounds {
    pub left: u32,
    pub right: u32,
}

/// Makes the pixels outside rounded corners fully transparent. The radius is
/// reduced to half of the shorter side where it is larger.
pub fn apply_rounded_corners(image: &mut PixelBuffer, radius: u32)
    requires
        old(image).wf(),
    ensures
        final(image).wf(),
        final(image).width == old(image).width,
        final(image).height == old(image).height,
        forall|x: int, y: int, c: int|
            0 <= x < old(image).width && 0 <= y < old(image).height && 0 <= c < 4
                ==> #[trigger] final(image).channel(x, y, c) == if c == 3 && is_cut(
                old(image).width as int,
                old(image).height as int,
                radius as int,
                x,
                y,
            ) {
                0
            } else {
                old(image).channel(x, y, c)
            },
{
    let ghost start = *image;
    let width = image.width;
    let height = image.height;
    let mut r = radius;
    if r > width / 2 {
        r = width / 2;
    }
    if r > height / 2 {
        r = height / 2;
    }
    assert(r == effective_radius(width as int, height as int, radius as int));
    assert((r as u64) * (r as u64) <= 0xffff_ffff * 0xffff_ffff) by (nonlinear_arith)
        requires
            r <= 0xffff_ffff,
    ;
    let r_squared: u64 = (r as u64) * (r as u64);
    let mut y: u32 = 0;
    while y < height
        invariant
            image.wf(),
            image.width == width && image.height == height,
            start.width == width && start.height == height,
            start.wf(),
            y <= height,
            r <= width / 2 && r <= height / 2,
            r == effective_radius(width as int, height as int, radius as int),
            r_squared == r * r,
            forall|x2: int, y2: int, c: int|
                0 <= x2 < width && 0 <= y2 < height && 0 <= c < 4 ==> #[trigger] image.channel(
                    x2,
                    y2,
                    c,
                ) == if y2 < y && c == 3 && is_cut(width as int, height as int, radius as int, x2, y2) {
                    0
                } else {
                    start.channel(x2, y2, c)
                },
        decreases height - y,
    {
        let mut x: u32 = 0;
        while x < width
            invariant
                image.wf(),
                image.width == width && image.height == height,
                start.width == width && start.height == height,
                start.wf(),
                y < height,
                x <= width,
                r <= width / 2 && r <= height / 2,
                r == effective_radius(width as int, height as int, radius as int),
                r_squared == r * r,
                forall|x2: int, y2: int, c: int|
                    0 <= x2 < width && 0 <= y2 < height && 0 <= c < 4 ==> #[trigger] image.channel(
                        x2,
                        y2,
                        c,
                    ) == if (y2 < y || (y2 == y && x2 < x)) && c == 3 && is_cut(
                        width as int,
                        height as int,
                        radius as int,
                        x2,
                        y2,
                    ) {
                        0
                    } else {
                        start.channel(x2, y2, c)
                    },
            decreases width - x,
        {
            let corner: Option<(u32, u32)> = if x < r && y < r {
                Some((r - x, r - y))
            } else if x >= width - r && y < r {
                Some((x - (width - r - 1), r - y))
            } else if x < r && y >= height - r {
                Some((r - x, y - (height - r - 1)))
            } else if x >= width - r && y >= height - r {
                Some((x - (width - r - 1), y - (height - r - 1)))
            } else {
                None
            };
            let cut = match corner {
                Some((dx, dy)) => {
                    assert(dx <= r && dy <= r);
                    assert((dx as u64) * (dx as u64) + (dy as u64) * (dy as u64) <= 2 * (0x7fff_ffff
                        * 0x7fff_ffff)) by (nonlinear_arith)
                        requires
                            dx <= r,
                            dy <= r,
                            r <= 0x7fff_ffff,
                    ;
                    (dx as u64) * (dx as u64) + (dy as u64) * (dy as u64) > r_squared
                },
                None => false,
            };
            assert(cut == is_cut(width as int, height as int, radius as int, x as int, y as int));
            if cut {
                proof {
                    lemma_offset(width as int, height as int, x as int, y as int, 3, 0, 0, 0);
                }
                let index: usize = 4 * ((y as usize) * (width as usize) + (x as usize)) + 3;
                let ghost before = *image;
                image.data.set(index, 0);
                proof {
                    assert forall|x2: int, y2: int, c: int|
                        0 <= x2 < width && 0 <= y2 < height && 0 <= c < 4 implies #[trigger] image.channel(
                            x2,
                            y2,
                            c,
                        ) == if (y2 < y || (y2 == y && x2 < x + 1)) && c == 3 && is_cut(
                            width as int,
                            height as int,
                            radius as int,
                            x2,
                            y2,
                        ) {
                            0
                        } else {
                            start.channel(x2, y2, c)
                        } by {
                        lemma_offset(width as int, height as int, x as int, y as int, 3, x2, y2, c);
                        lemma_offset(width as int, height as int, x2, y2, c, x as int, y as int, 3);
                        assert(before.channel(x2, y2, c) == before.data@[before.offset(x2, y2, c)]);
                    }
                }
            }
            x = x + 1;
        }
        y = y + 1;
    }
}


/// Scales each pixel's alpha by `opacity / 255`, rounding down; an opacity of
/// 255 leaves the image as it is.
pub fn apply_opacity(image: &mut PixelBuffer, opacity: u8)
    requires
        old(image).wf(),
    ensures
        final(image).wf(),
        final(image).width == old(image).width,
        final(image).height == old(image).height,
        final(image).data@.len() == old(image).data@.len(),
        forall|i: int|
            0 <= i < old(image).data@.len() ==> #[trigger] final(image).data@[i] == if i % 4 == 3
                && opacity < 255 {
                (old(image).data@[i] * opacity / 255) as u8
            } else {
                old(image).data@[i]
            },
{
    if opacity < 255 {
        let ghost start = image.data@;
        let n = image.data.len();
        let mut i: usize = 0;
        while i < n
            invariant
                image.wf(),
                image.width == old(image).width,
                image.height == old(image).height,
                start == old(image).data@,
                n == image.data@.len(),
                n == start.len(),
                i <= n,
                opacity < 255,
                forall|j: int|
                    0 <= j < n ==> #[trigger] image.data@[j] == if j < i && j % 4 == 3 {
                        (start[j] * opacity / 255) as u8
                    } else {
                        start[j]
                    },
            decreases n - i,
        {
            if i % 4 == 3 {
                let alpha = image.data[i];
                assert((alpha as u16) * (opacity as u16) <= 255 * 255) by (nonlinear_arith)
                    requires
                        alpha <= 255,
                        opacity <= 255,
                ;
                let scaled: u16 = (alpha as u16) * (opacity as u16) / 255;
                assert(scaled <= 255) by (nonlinear_arith)
                    requires
                        scaled == (alpha as int) * (opacity as int) / 255,
                        alpha <= 255,
                        opacity <= 255,
                ;
                image.data.set(i, scaled as u8);
            }
            i = i + 1;
        }
    }
}

/// Finds the leftmost and rightmost columns that hold a visible pixel.
pub fn alpha_bounds(image: &PixelBuffer) -> (res: Option<AlphaBounds>)
    requires
        image.wf(),
    ensures
        res is Some <==> has_visible(*image),
        res matches Some(b) ==> column_has_visible(*image, b.left as int),
        res matches Some(b) ==> column_has_visible(*image, b.right as int),
        res matches Some(b) ==> forall|x: int, y: int|
            0 <= x < image.width && 0 <= y < image.height && is_visible(*image, x, y) ==> b.left <= x
                <= b.right,
{
    let width = image.width;
    let height = image.height;
    let mut left: u32 = width;
    let mut right: u32 = 0;
    let mut found = false;
    let ghost mut left_row: int = 0;
    let ghost mut right_row: int = 0;
    let mut y: u32 = 0;
    while y < height
        invariant
            image.wf(),
            width == image.width && height == image.height,
            y <= height,
            found <==> exists|x2: int, y2: int|
                0 <= x2 < width && 0 <= y2 < y && is_visible(*image, x2, y2),
            found ==> {
                &&& 0 <= left_row < y && left < width && is_visible(*image, left as int, left_row)
                &&& 0 <= right_row < y && right < width && is_visible(*image, right as int, right_row)
                &&& forall|x2: int, y2: int|
                    0 <= x2 < width && 0 <= y2 < y && is_visible(*image, x2, y2) ==> left <= x2
                        <= right
            },
        decreases height - y,
    {
        let mut x: u32 = 0;
        while x < width
            invariant
                image.wf(),
                width == image.width && height == image.height,
                y < height,
                x <= width,
                found <==> exists|x2: int, y2: int|
                    0 <= x2 < width && 0 <= y2 < height && (y2 < y || (y2 == y && x2 < x))
                        && is_visible(*image, x2, y2),
                found ==> {
                    &&& 0 <= left_row <= y && left < width && is_visible(*image, left as int, left_row)
                    &&& 0 <= right_row <= y && right < width && is_visible(
                        *image,
                        right as int,
                        right_row,
                    )
                    &&& forall|x2: int, y2: int|
                        0 <= x2 < width && 0 <= y2 < height && (y2 < y || (y2 == y && x2 < x))
                            && is_visible(*image, x2, y2) ==> left <= x2 <= right
                },
            decreases width - x,
        {
            proof {
                lemma_offset(width as int, height as int, x as int, y as int, 3, 0, 0, 0);
            }
            let alpha = image.data[4 * ((y as usize) * (width as usize) + (x as usize)) + 3];
            assert(alpha == image.channel(x as int, y as int, 3));
            if alpha > 8 {
                assert(is_visible(*image, x as int, y as int));
                if !found || x < left {
                    left = x;
                    proof {
                        left_row = y as int;
                    }
                }
                if !found || x > right {
                    right = x;
                    proof {
                        right_row = y as int;
                    }
                }
                found = true;
            }
            x = x + 1;
        }
        y = y + 1;
    }
    if found {
        let bounds = AlphaBounds { left, right };
        assert(is_visible(*image, bounds.left as int, left_row));
        assert(is_visible(*image, bounds.right as int, right_row));
        assert(column_has_visible(*image, bounds.left as int));
        assert(column_has_visible(*image, bounds.right as int));
        Some(bounds)
    } else {
        None
    }
}

/// The lowest row that holds a visible pixel, or 0 where none is visible.
pub fn opaque_bottom(image: &PixelBuffer) -> (res: u32)
    requires
        image.wf(),
    ensures
        has_visible(*image) ==> {
            &&& exists|x: int| 0 <= x < image.width && is_visible(*image, x, res as int)
            &&& forall|x: int, y: int|
                0 <= x < image.width && 0 <= y < image.height && is_visible(*image, x, y) ==> y
                    <= res
        },
        !has_visible(*image) ==> res == 0,
{
    let width = image.width;
    let height = image.height;
    let mut bottom: u32 = 0;
    let mut found = false;
    let ghost mut column: int = 0;
    let mut y: u32 = 0;
    while y < height
        invariant
            image.wf(),
            width == image.width && height == image.height,
            y <= height,
            found <==> exists|x2: int, y2: int|
                0 <= x2 < width && 0 <= y2 < y && is_visible(*image, x2, y2),
            !found ==> bottom == 0,
            found ==> {
                &&& 0 <= column < width && bottom < y && is_visible(*image, column, bottom as int)
                &&& forall|x2: int, y2: int|
                    0 <= x2 < width && 0 <= y2 < y && is_visible(*image, x2, y2) ==> y2 <= bottom
            },
        decreases height - y,
    {
        let mut x: u32 = 0;
        while x < width
            invariant
                image.wf(),
                width == image.width && height == image.height,
                y < height,
                x <= width,
                found <==> exists|x2: int, y2: int|
                    0 <= x2 < width && 0 <= y2 < height && (y2 < y || (y2 == y && x2 < x))
                        && is_visible(*image, x2, y2),
                !found ==> bottom == 0,
                found ==> {
                    &&& 0 <= column < width && bottom <= y && is_visible(*image, column, bottom as int)
                    &&& forall|x2: int, y2: int|
                        0 <= x2 < width && 0 <= y2 < height && (y2 < y || (y2 == y && x2 < x))
                            && is_visible(*image, x2, y2) ==> y2 <= bottom
                },
            decreases width - x,
        {
            proof {
                lemma_offset(width as int, height as int, x as int, y as int, 3, 0, 0, 0);
            }
            let alpha = image.data[4 * ((y as usize) * (width as usize) + (x as usize)) + 3];
            assert(alpha == image.channel(x as int, y as int, 3));
            if alpha > 8 {
                assert(is_visible(*image, x as int, y as int));
                bottom = y;
                proof {
                    column = x as int;
                }
                found = true;
            }
            x = x + 1;
        }
        y = y + 1;
    }
    bottom
}

/// The silhouette an image casts as a shadow, on a transparent canvas with
/// `padding` pixels on every side: each pixel of the image becomes black with
/// its alpha capped at `opacity`.
pub open spec fn spec_silhouette_channel(image: PixelBuffer, padding: int, opacity: u8, x: int, y: int, c: int) -> u8 {
    if c == 3 && padding <= x < padding + image.width && padding <= y < padding + image.height {
        let alpha = image.channel(x - padding, y - padding, 3);
        if alpha <= opacity {
            alpha
        } else {
            opacity
        }
    } else {
        0
    }
}

/// Draws the silhouette of an image for its shadow: a canvas larger by
/// `padding` on each side, transparent black, with each pixel of the image
/// copied as black whose alpha is the image's alpha capped at `opacity`.
pub fn shadow_silhouette(image: &PixelBuffer, padding: u32, opacity: u8) -> (res: PixelBuffer)
    requires
        image.wf(),
        image.width + 2 * padding <= u32::MAX,
        image.height + 2 * padding <= u32::MAX,
        4 * ((image.width + 2 * padding) * (image.height + 2 * padding)) <= usize::MAX,
    ensures
        res.wf(),
        res.width == image.width + 2 * padding,
        res.height == image.height + 2 * padding,
        forall|x: int, y: int, c: int|
            0 <= x < res.width && 0 <= y < res.height && 0 <= c < 4 ==> #[trigger] res.channel(x, y, c)
                == spec_silhouette_channel(*image, padding as int, opacity, x, y, c),
{
    let width = image.width + 2 * padding;
    let height = image.height + 2 * padding;
    assert(0 <= (width as int) * (height as int)) by (nonlinear_arith)
        requires
            0 <= width,
            0 <= height,
    ;
    let total: usize = 4 * ((width as usize) * (height as usize));
    let mut data: Vec<u8> = Vec::new();
    let mut i: usize = 0;
    while i < total
        invariant
            i <= total,
            data@.len() == i,
            forall|j: int| 0 <= j < i ==> data@[j] == 0,
        decreases total - i,
    {
        data.push(0);
        i = i + 1;
    }
    let mut canvas = PixelBuffer { width, height, data };
    assert(canvas.wf());
    assert forall|x2: int, y2: int, c: int|
        0 <= x2 < width && 0 <= y2 < height && 0 <= c < 4 implies #[trigger] canvas.channel(
            x2,
            y2,
            c,
        ) == 0 by {
        lemma_offset(width as int, height as int, x2, y2, c, 0, 0, 0);
    }
    let mut y: u32 = 0;
    while y < image.height
        invariant
            image.wf(),
            canvas.wf(),
            canvas.width == width && canvas.height == height,
            width == image.width + 2 * padding,
            height == image.height + 2 * padding,
            y <= image.height,
            forall|x2: int, y2: int, c: int|
                0 <= x2 < width && 0 <= y2 < height && 0 <= c < 4 ==> #[trigger] canvas.channel(
                    x2,
                    y2,
                    c,
                ) == if y2 < padding + y {
                    spec_silhouette_channel(*image, padding as int, opacity, x2, y2, c)
                } else {
                    0
                },
        decreases image.height - y,
    {
        let mut x: u32 = 0;
        while x < image.width
            invariant
                image.wf(),
                canvas.wf(),
                canvas.width == width && canvas.height == height,
                width == image.width + 2 * padding,
                height == image.height + 2 * padding,
                y < image.height,
                x <= image.width,
                forall|x2: int, y2: int, c: int|
                    0 <= x2 < width && 0 <= y2 < height && 0 <= c < 4 ==> #[trigger] canvas.channel(
                        x2,
                        y2,
                        c,
                    ) == if y2 < padding + y || (y2 == padding + y && x2 < padding + x) {
                        spec_silhouette_channel(*image, padding as int, opacity, x2, y2, c)
                    } else {
                        0
                    },
            decreases image.width - x,
        {
            proof {
                lemma_offset(
                    image.width as int,
                    image.height as int,
                    x as int,
                    y as int,
                    3,
                    0,
                    0,
                    0,
                );
                lemma_offset(
                    width as int,
                    height as int,
                    (x + padding) as int,
                    (y + padding) as int,
                    3,
                    0,
                    0,
                    0,
                );
            }
            let alpha = image.data[4 * ((y as usize) * (image.width as usize) + (x as usize)) + 3];
            assert(alpha == image.channel(x as int, y as int, 3));
            let capped = if alpha <= opacity {
                alpha
            } else {
                opacity
            };
            let tx = x + padding;
            let ty = y + padding;
            let index: usize = 4 * ((ty as usize) * (width as usize) + (tx as usize)) + 3;
            let ghost before = canvas;
            canvas.data.set(index, capped);
            proof {
                assert forall|x2: int, y2: int, c: int|
                    0 <= x2 < width && 0 <= y2 < height && 0 <= c < 4 implies #[trigger] canvas.channel(
                        x2,
                        y2,
                        c,
                    ) == if y2 < padding + y || (y2 == padding + y && x2 < padding + x + 1) {
                        spec_silhouette_channel(*image, padding as int, opacity, x2, y2, c)
                    } else {
                        0
                    } by {
                    lemma_offset(width as int, height as int, tx as int, ty as int, 3, x2, y2, c);
                    lemma_offset(width as int, height as int, x2, y2, c, tx as int, ty as int, 3);
                    assert(before.channel(x2, y2, c) == before.data@[before.offset(x2, y2, c)]);
                    if y2 == ty && x2 == tx && c == 3 {
                    } else if (y2 == padding + y && x2 == padding + x) {
                        assert(c != 3);
                    }
                }
            }
            x = x + 1;
        }
        proof {
            assert forall|x2: int, y2: int, c: int|
                0 <= x2 < width && 0 <= y2 < height && 0 <= c < 4 implies #[trigger] canvas.channel(
                    x2,
                    y2,
                    c,
                ) == if y2 < padding + y + 1 {
                    spec_silhouette_channel(*image, padding as int, opacity, x2, y2, c)
                } else {
                    0
                } by {
                if y2 == padding + y && (x2 < padding || x2 >= padding + image.width) {
                    assert(spec_silhouette_channel(*image, padding as int, opacity, x2, y2, c) == 0);
                }
            }
        }
        y = y + 1;
    }
    proof {
        assert forall|x2: int, y2: int, c: int|
            0 <= x2 < width && 0 <= y2 < height && 0 <= c < 4 implies #[trigger] canvas.channel(
                x2,
                y2,
                c,
            ) == spec_silhouette_channel(*image, padding as int, opacity, x2, y2, c) by {
            if y2 >= padding + image.height {
                assert(spec_silhouette_channel(*image, padding as int, opacity, x2, y2, c) == 0);
            }
        }
    }
    canvas
}

} // verus!
