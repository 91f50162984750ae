//! Drawing logical pixels onto an image, with the sway of an animation frame.

use vstd::prelude::*;
use crate::canvas::RgbaCanvas;
use crate::grid::{cell_index, on_grid, Pixel, PixelGrid, PixelPart};

verus! {

/// Where a logical pixel lands in a frame that sways by `sway` columns.
/// Without a stem the whole flower moves by `sway * 0.35`, rounded half up.
/// With a stem the blossom moves by `sway` columns, and one row down at the
/// full sway of 2; a stem pixel moves by that shift times its height above
/// the ground row 15, in sixths up to a whole, rounded half up; the base
/// stays.
pub open spec fn spec_transform_pixel(
    x: int,
    y: int,
    part: PixelPart,
    sway: int,
    include_stem: bool,
) -> (int, int) {
    if !include_stem {
        (x + (7 * sway + 10) / 20, y)
    } else {
        let shift_y = if sway == 2 || sway == -2 {
            1int
        } else {
            0
        };
        match part {
            PixelPart::Flower => (x + sway, y + shift_y),
            PixelPart::Stem => {
                let height = if 15 - y < 0 {
                    0
                } else if 15 - y > 6 {
                    6
                } else {
                    15 - y
                };
                (x + (sway * height + 3) / 6, y + (shift_y * height + 3) / 6)
            },
            PixelPart::Base => (x, y),
        }
    }
}

/// Moves a logical pixel for an animation frame. The motion is `sway * 0.35`
/// and `(15 - y) / 6` in double precision, rounded by `floor(v + 0.5)`; for
/// the sways of the animation, -2 to 2, that gives the exact rational values
/// computed here.
pub fn transform_pixel(x: i32, y: i32, part: PixelPart, sway: i32, include_stem: bool) -> (moved: (
    i32,
    i32,
))
    requires
        0 <= x < 16,
        0 <= y < 16,
        -2 <= sway <= 2,
    ensures
        moved.0 as int == spec_transform_pixel(x as int, y as int, part, sway as int, include_stem).0,
        moved.1 as int == spec_transform_pixel(x as int, y as int, part, sway as int, include_stem).1,
{
    if !include_stem {
        // 7 * sway + 10 lies in -4..=24, so shifting by 20 keeps it non-negative.
        return (x + (7 * sway + 30) / 20 - 1, y);
    }
    let flower_shift_x = sway;
    let flower_shift_y: i32 = if sway == 2 || sway == -2 {
        1
    } else {
        0
    };
    match part {
        PixelPart::Flower => (x + flower_shift_x, y + flower_shift_y),
        PixelPart::Stem => {
            let height: i32 = if 15 - y < 0 {
                0
            } else if 15 - y > 6 {
                6
            } else {
                15 - y
            };
            // The numerators lie in -9..=15; shifting by 12 keeps them non-negative.
            assert(-12 <= flower_shift_x * height <= 12) by (nonlinear_arith)
                requires
                    -2 <= flower_shift_x <= 2,
                    0 <= height <= 6,
            ;
            assert(0 <= flower_shift_y * height <= 6) by (nonlinear_arith)
                requires
                    0 <= flower_shift_y <= 1,
                    0 <= height <= 6,
            ;
            (
                x + (flower_shift_x * height + 15) / 6 - 2,
                y + (flower_shift_y * height + 15) / 6 - 2,
            )
        },
        PixelPart::Base => (x, y),
    }
}

/// The logical frame after placing the first `n` cells, in row order: each
/// pixel moved and, when it lands on the grid, painted over what is there.
pub open spec fn frame_upto(
    cells: Seq<Option<Pixel>>,
    sway: int,
    include_stem: bool,
    n: int,
) -> Seq<Option<[u8; 4]>>
    decreases n,
{
    if n <= 0 {
        Seq::new(256, |i: int| None)
    } else {
        let prev = frame_upto(cells, sway, include_stem, n - 1);
        let i = n - 1;
        match cells[i] {
            None => prev,
            Some(p) => {
                let t = spec_transform_pixel(i % 16, i / 16, p.part, sway, include_stem);
                if on_grid(t.0, t.1) {
                    prev.update(cell_index(t.0, t.1), Some(p.color))
                } else {
                    prev
                }
            },
        }
    }
}

/// The logical frame of a grid.
pub open spec fn spec_frame(cells: Seq<Option<Pixel>>, sway: int, include_stem: bool) -> Seq<
    Option<[u8; 4]>,
> {
    frame_upto(cells, sway, include_stem, 256)
}

/// The colour of image pixel `(x, y)` after drawing: the colour of the
/// logical cell that covers it, or `old` where that cell is empty or off the
/// grid. A logical cell covers a `scale` by `scale` block.
pub open spec fn painted(
    frame: Seq<Option<[u8; 4]>>,
    scale: int,
    x: int,
    y: int,
    old: [u8; 4],
) -> [u8; 4] {
    let lx = x / scale;
    let ly = y / scale;
    if on_grid(lx, ly) && frame[cell_index(lx, ly)] is Some {
        frame[cell_index(lx, ly)]->0
    } else {
        old
    }
}

/// The image after drawing a grid at `scale` with `sway`.
pub open spec fn spec_draw(
    pixels: Seq<[u8; 4]>,
    width: int,
    cells: Seq<Option<Pixel>>,
    scale: int,
    sway: int,
    include_stem: bool,
) -> Seq<[u8; 4]> {
    if scale == 0 {
        pixels
    } else {
        Seq::new(
            pixels.len(),
            |j: int|
                painted(
                    spec_frame(cells, sway, include_stem),
                    scale,
                    j % width,
                    j / width,
                    pixels[j],
                ),
        )
    }
}

/// A frame always has one entry for each cell.
pub proof fn lemma_frame_len(cells: Seq<Option<Pixel>>, sway: int, include_stem: bool, n: int)
    ensures
        frame_upto(cells, sway, include_stem, n).len() == 256,
    decreases n,
{
    if n > 0 {
        lemma_frame_len(cells, sway, include_stem, n - 1);
    }
}

/// A pixel is shown where its part moves it, unless a pixel later in row
/// order lands on the same cell.
pub proof fn lemma_frame_places_pixel(
    cells: Seq<Option<Pixel>>,
    sway: int,
    include_stem: bool,
    i: int,
    n: int,
)
    requires
        0 <= i < n <= 256,
        cells[i] is Some,
        on_grid(
            spec_transform_pixel(i % 16, i / 16, cells[i]->0.part, sway, include_stem).0,
            spec_transform_pixel(i % 16, i / 16, cells[i]->0.part, sway, include_stem).1,
        ),
        forall|j: int|
            i < j < n && (#[trigger] cells[j]) is Some ==> spec_transform_pixel(
                j % 16,
                j / 16,
                cells[j]->0.part,
                sway,
                include_stem,
            ) != spec_transform_pixel(i % 16, i / 16, cells[i]->0.part, sway, include_stem),
    ensures
        ({
            let t = spec_transform_pixel(i % 16, i / 16, cells[i]->0.part, sway, include_stem);
            frame_upto(cells, sway, include_stem, n)[cell_index(t.0, t.1)] == Some(
                cells[i]->0.color,
            )
        }),
    decreases n,
{
    let t = spec_transform_pixel(i % 16, i / 16, cells[i]->0.part, sway, include_stem);
    lemma_frame_len(cells, sway, include_stem, n - 1);
    if n > i + 1 {
        lemma_frame_places_pixel(cells, sway, include_stem, i, n - 1);
        let j = n - 1;
        if cells[j] is Some {
            let u = spec_transform_pixel(j % 16, j / 16, cells[j]->0.part, sway, include_stem);
            assert(u != t);
            if on_grid(u.0, u.1) {
                assert(cell_index(u.0, u.1) != cell_index(t.0, t.1));
            }
        }
    }
}

/// The colour that a shift of `s` columns brings to cell `j` from the first
/// `n` cells: that of the cell `s` columns to its left, if it is on the grid,
/// among the first `n` and set.
pub open spec fn shifted_source(cells: Seq<Option<Pixel>>, s: int, n: int, j: int) -> Option<
    [u8; 4],
> {
    let sx = j % 16 - s;
    let i = cell_index(sx, j / 16);
    if 0 <= sx < 16 && i < n && cells[i] is Some {
        Some(cells[i]->0.color)
    } else {
        None
    }
}

/// The column shift of a frame where every pixel moves by the same amount:
/// without a stem, and at sway 0.
pub open spec fn uniform_shift(sway: int, include_stem: bool) -> int {
    if include_stem {
        0
    } else {
        (7 * sway + 10) / 20
    }
}

/// Where every pixel moves by the same number of columns (no stem, or no
/// sway), the frame holds at each cell the colour of the cell that the shift
/// brings there.
pub proof fn lemma_frame_is_shift(cells: Seq<Option<Pixel>>, sway: int, include_stem: bool, n: int)
    requires
        0 <= n <= 256,
        !include_stem || sway == 0,
    ensures
        frame_upto(cells, sway, include_stem, n).len() == 256,
        forall|j: int|
            0 <= j < 256 ==> #[trigger] frame_upto(cells, sway, include_stem, n)[j]
                == shifted_source(cells, uniform_shift(sway, include_stem), n, j),
    decreases n,
{
    let s = uniform_shift(sway, include_stem);
    if n > 0 {
        lemma_frame_is_shift(cells, sway, include_stem, n - 1);
        let i = n - 1;
        let prev = frame_upto(cells, sway, include_stem, n - 1);
        let frame = frame_upto(cells, sway, include_stem, n);
        assert forall|j: int| 0 <= j < 256 implies #[trigger] frame[j] == shifted_source(
            cells,
            s,
            n,
            j,
        ) by {
            assert(prev[j] == shifted_source(cells, s, n - 1, j));
            match cells[i] {
                None => {},
                Some(p) => {
                    let t = spec_transform_pixel(i % 16, i / 16, p.part, sway, include_stem);
                    assert(t == (i % 16 + s, i / 16));
                },
            }
        }
    }
}

/// A pixel of a picture drawn with a uniform shift: the colour that the
/// shift brings to the cell its block stands for, or the fill.
pub proof fn lemma_drawn_pixel(
    fill: [u8; 4],
    n: int,
    cells: Seq<Option<Pixel>>,
    sway: int,
    include_stem: bool,
    x: int,
    y: int,
)
    requires
        n >= 16,
        n % 16 == 0,
        0 <= x < n,
        0 <= y < n,
        !include_stem || sway == 0,
    ensures
        0 <= y * n + x < n * n,
        0 <= x / (n / 16) < 16,
        0 <= y / (n / 16) < 16,
        spec_draw(Seq::new((n * n) as nat, |i: int| fill), n, cells, n / 16, sway, include_stem)[y
            * n + x] == (match shifted_source(
            cells,
            uniform_shift(sway, include_stem),
            256,
            cell_index(x / (n / 16), y / (n / 16)),
        ) {
            Some(c) => c,
            None => fill,
        }),
{
    let j = y * n + x;
    assert(0 <= j < n * n) by (nonlinear_arith)
        requires
            0 <= x < n,
            0 <= y < n,
            j == y * n + x,
    ;
    vstd::arithmetic::div_mod::lemma_fundamental_div_mod_converse(j, n, y, x);
    let k = n / 16;
    assert(0 <= x / k < 16 && 0 <= y / k < 16) by (nonlinear_arith)
        requires
            0 <= x < n,
            0 <= y < n,
            n == 16 * k,
            k >= 1,
    ;
    lemma_frame_is_shift(cells, sway, include_stem, 256);
    let c = cell_index(x / k, y / k);
    assert(c % 16 == x / k && c / 16 == y / k);
}

/// A pixel of a still picture has the colour of the cell its block stands
/// for, or the fill where that cell is empty.
pub proof fn lemma_still_pixel(
    fill: [u8; 4],
    n: int,
    cells: Seq<Option<Pixel>>,
    include_stem: bool,
    x: int,
    y: int,
)
    requires
        n >= 16,
        n % 16 == 0,
        0 <= x < n,
        0 <= y < n,
    ensures
        spec_draw(Seq::new((n * n) as nat, |i: int| fill), n, cells, n / 16, 0, include_stem)[y
            * n + x] == (match cells[cell_index(x / (n / 16), y / (n / 16))] {
            Some(p) => p.color,
            None => fill,
        }),
{
    lemma_drawn_pixel(fill, n, cells, 0, include_stem, x, y);
    let c = cell_index(x / (n / 16), y / (n / 16));
    assert(c % 16 == x / (n / 16) && c / 16 == y / (n / 16));
}

/// A pixel whose block stands for a cell that the frame leaves empty keeps
/// the fill.
pub proof fn lemma_uncovered_pixel(
    fill: [u8; 4],
    n: int,
    cells: Seq<Option<Pixel>>,
    sway: int,
    include_stem: bool,
    x: int,
    y: int,
)
    requires
        n >= 16,
        n % 16 == 0,
        0 <= x < n,
        0 <= y < n,
        spec_frame(cells, sway, include_stem)[cell_index(x / (n / 16), y / (n / 16))] is None,
    ensures
        0 <= y * n + x < n * n,
        spec_draw(Seq::new((n * n) as nat, |i: int| fill), n, cells, n / 16, sway, include_stem)[y
            * n + x] == fill,
{
    let j = y * n + x;
    assert(0 <= j < n * n) by (nonlinear_arith)
        requires
            0 <= x < n,
            0 <= y < n,
            j == y * n + x,
    ;
    vstd::arithmetic::div_mod::lemma_fundamental_div_mod_converse(j, n, y, x);
}

/// Without a stem, a picture swaying by 1 either way is the still one, and a
/// sway of 2 moves it one block right (-2: left).
pub proof fn lemma_stemless_sway(
    fill: [u8; 4],
    n: int,
    cells: Seq<Option<Pixel>>,
    sway: int,
    x: int,
    y: int,
)
    requires
        n >= 16,
        n % 16 == 0,
        0 <= x < n,
        0 <= y < n,
        -2 <= sway <= 2,
    ensures
        ({
            let still = spec_draw(Seq::new((n * n) as nat, |i: int| fill), n, cells, n / 16, 0, false);
            let moved = spec_draw(
                Seq::new((n * n) as nat, |i: int| fill),
                n,
                cells,
                n / 16,
                sway,
                false,
            );
            let k = n / 16;
            &&& sway == 1 || sway == -1 ==> moved[y * n + x] == still[y * n + x]
            &&& sway == 2 && x + k < n ==> moved[y * n + x + k] == still[y * n + x]
            &&& sway == -2 && x + k < n ==> moved[y * n + x] == still[y * n + x + k]
        }),
{
    let k = n / 16;
    lemma_drawn_pixel(fill, n, cells, 0, false, x, y);
    lemma_drawn_pixel(fill, n, cells, sway, false, x, y);
    if x + k < n {
        lemma_drawn_pixel(fill, n, cells, 0, false, x + k, y);
        lemma_drawn_pixel(fill, n, cells, sway, false, x + k, y);
        vstd::arithmetic::div_mod::lemma_fundamental_div_mod(x, k);
        vstd::arithmetic::div_mod::lemma_mod_bound(x, k);
        let q = x / k;
        let r = x % k;
        assert(x + k == (q + 1) * k + r) by (nonlinear_arith)
            requires
                x == k * q + r,
        ;
        vstd::arithmetic::div_mod::lemma_fundamental_div_mod_converse(x + k, k, q + 1, r);
        assert(y * n + (x + k) == y * n + x + k);
    }
}

fn logical_frame(pixels: &PixelGrid, sway: i32, include_stem: bool) -> (frame: Vec<
    Option<[u8; 4]>,
>)
    requires
        pixels.wf(),
        -2 <= sway <= 2,
    ensures
        frame@ == spec_frame(pixels@, sway as int, include_stem),
        frame@.len() == 256,
{
    let mut frame: Vec<Option<[u8; 4]>> = Vec::new();
    for k in 0..256
        invariant
            frame@.len() == k,
            forall|j: int| 0 <= j < k ==> frame@[j] is None,
    {
        frame.push(None);
    }
    assert(frame@ =~= frame_upto(pixels@, sway as int, include_stem, 0));
    for i in 0..256
        invariant
            pixels.wf(),
            -2 <= sway <= 2,
            frame@ == frame_upto(pixels@, sway as int, include_stem, i as int),
            frame@.len() == 256,
    {
        if let Some(pixel) = pixels.get(i) {
            let x: i32 = (i % 16) as i32;
            let y: i32 = (i / 16) as i32;
            let (tx, ty) = transform_pixel(x, y, pixel.part, sway, include_stem);
            if 0 <= tx && tx < 16 && 0 <= ty && ty < 16 {
                frame.set((ty * 16 + tx) as usize, Some(pixel.color));
            }
        }
    }
    frame
}

/// Draws every logical pixel as a `pixel_scale` by `pixel_scale` block,
/// moved for a frame that sways by `sway`. Where two pixels land on the
/// same cell, the one later in row order is drawn over the other. Blocks
/// are clipped to the image.
pub fn draw_pixels(
    image: &mut RgbaCanvas,
    pixels: &PixelGrid,
    pixel_scale: u32,
    sway: i32,
    include_stem: bool,
)
    requires
        old(image).wf(),
        pixels.wf(),
        -2 <= sway <= 2,
    ensures
        final(image).wf(),
        final(image).width() == old(image).width(),
        final(image).height() == old(image).height(),
        final(image).pixel_seq() == spec_draw(
            old(image).pixel_seq(),
            old(image).width() as int,
            pixels@,
            pixel_scale as int,
            sway as int,
            include_stem,
        ),
{
    if pixel_scale == 0 {
        return;
    }
    let frame = logical_frame(pixels, sway, include_stem);
    let width = image.width_of();
    let count = image.pixels().len();
    let ghost before = image.pixel_seq();
    assert(width > 0 || count == 0) by (nonlinear_arith)
        requires
            count == width as int * image.height(),
    ;
    let ghost frame_spec = spec_frame(pixels@, sway as int, include_stem);
    for j in 0..count
        invariant
            count == before.len(),
            image.width() == width,
            image.pixel_seq().len() == before.len(),
            image.width() == old(image).width(),
            image.height() == old(image).height(),
            before == old(image).pixel_seq(),
            frame@ == frame_spec,
            frame@.len() == 256,
            pixel_scale > 0,
            width > 0 || count == 0,
            forall|k: int|
                0 <= k < j ==> image.pixel_seq()[k] == painted(
                    frame_spec,
                    pixel_scale as int,
                    k % width as int,
                    k / width as int,
                    before[k],
                ),
            forall|k: int| j <= k < count ==> image.pixel_seq()[k] == before[k],
    {
        let x: usize = j % (width as usize);
        let y: usize = j / (width as usize);
        let lx: usize = x / (pixel_scale as usize);
        let ly: usize = y / (pixel_scale as usize);
        if lx < 16 && ly < 16 {
            if let Some(color) = frame[ly * 16 + lx] {
                image.set_by_index(j, color);
            }
        }
    }
    assert(image.pixel_seq() =~= spec_draw(
        before,
        width as int,
        pixels@,
        pixel_scale as int,
        sway as int,
        include_stem,
    ));
}

} // verus!
