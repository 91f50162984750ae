//! Properties of the library as a whole.

use vstd::prelude::*;
use crate::dither::{dither_step, dither_upto, spec_dither};
use crate::flower::{
    spec_flower_background, spec_flower_cells, spec_normalize_flower_size,
    spec_normalize_flower_variant, FlowerStyle,
};
use crate::canvas::rgba_bytes;
use crate::codec::encoded_rgba8_gif;
use crate::draw::{
    lemma_frame_places_pixel, lemma_stemless_sway, lemma_still_pixel, lemma_uncovered_pixel,
    spec_frame, spec_transform_pixel,
};
use crate::grid::{
    bounds_upto, cell_index, centering_shift, lemma_recenter_translates, moves_within_grid,
    spec_recenter, translated_source, Pixel, PixelPart,
};
use crate::palette::{
    spec_canvas_pixel, spec_pick_colors, spec_to_hdr_color, spec_to_night_color, ColorRole, Rgba,
    TRANSPARENT,
};
use crate::random::seed_state;
use crate::shape::{lemma_variant_cells_shape, same_shape};
use crate::render::{
    is_flower_picture, lemma_flower_picture_is_drawn, lemma_image_follows_cells, spec_flower_gif, spec_flower_image,
    spec_flower_png, GeneratedFlower, SWAY_FRAMES,
};

verus! {

/// The same arguments give the same flower PNG.
pub proof fn law_flower_png_deterministic(
    seed: Seq<char>,
    style: FlowerStyle,
    size: Option<u32>,
    variant: Option<u32>,
    night: bool,
    transparent: bool,
    hdr: bool,
    first: Seq<u8>,
    second: Seq<u8>,
)
    requires
        spec_flower_png(seed, style, size, variant, night, transparent, hdr) == Some(first),
        spec_flower_png(seed, style, size, variant, night, transparent, hdr) == Some(second),
    ensures
        first == second,
{
}

/// Variant numbers wrap around: a flower depends on its variant only
/// modulo the number of variants, and no variant is variant 0.
pub proof fn law_variants_wrap(
    seed: Seq<char>,
    style: FlowerStyle,
    size: Option<u32>,
    variant: u32,
    night: bool,
    transparent: bool,
    hdr: bool,
)
    ensures
        spec_flower_cells(seed, style, Some(variant), night, hdr) == spec_flower_cells(
            seed,
            style,
            Some(variant % 5),
            night,
            hdr,
        ),
        spec_flower_png(seed, style, size, Some(variant), night, transparent, hdr)
            == spec_flower_png(seed, style, size, Some(variant % 5), night, transparent, hdr),
        spec_flower_png(seed, style, size, None, night, transparent, hdr) == spec_flower_png(
            seed,
            style,
            size,
            Some(0),
            night,
            transparent,
            hdr,
        ),
{
    assert(spec_normalize_flower_variant(Some(variant)) == spec_normalize_flower_variant(
        Some(variant % 5),
    ));
    assert(spec_normalize_flower_variant(None) == spec_normalize_flower_variant(Some(0)));
    lemma_image_follows_cells(seed, style, size, Some(variant), Some(variant % 5), night, transparent, hdr, 0);
    lemma_image_follows_cells(seed, style, size, None, Some(0), night, transparent, hdr, 0);
}

/// The background of a flower comes from its seed (and the night and HDR
/// switches) alone: style, size, variant, transparency and sway do not
/// change it.
pub proof fn law_background_is_seed_driven(
    first: GeneratedFlower,
    second: GeneratedFlower,
    seed: Seq<char>,
    night: bool,
    hdr: bool,
    style1: FlowerStyle,
    style2: FlowerStyle,
    size1: Option<u32>,
    size2: Option<u32>,
    variant1: Option<u32>,
    variant2: Option<u32>,
    transparent1: bool,
    transparent2: bool,
    sway1: int,
    sway2: int,
)
    requires
        is_flower_picture(first, seed, style1, size1, variant1, night, transparent1, hdr, sway1),
        is_flower_picture(second, seed, style2, size2, variant2, night, transparent2, hdr, sway2),
    ensures
        first.background == second.background,
        first.background == spec_flower_background(seed, night, hdr),
{
}

/// Every flower picture is square, its side the requested size (32 by
/// default) clamped to 16..=256 and rounded to a multiple of 16, so each
/// logical pixel is a whole block.
pub proof fn law_flower_picture_size(
    generated: GeneratedFlower,
    seed: Seq<char>,
    style: FlowerStyle,
    size: Option<u32>,
    variant: Option<u32>,
    night: bool,
    transparent: bool,
    hdr: bool,
    sway: int,
)
    requires
        is_flower_picture(generated, seed, style, size, variant, night, transparent, hdr, sway),
    ensures
        generated.image.width() == generated.image.height(),
        16 <= generated.image.width() <= 256,
        generated.image.width() % 16 == 0,
        size is None ==> generated.image.width() == 32,
        forall|s: u32|
            size == Some(s) && 16 <= s <= 256 && s % 16 == 0 ==> generated.image.width() == s,
        generated.image.pixel_seq().len() == generated.image.width() as int
            * generated.image.height() as int,
{
}

/// The middle frame of the animation, which does not sway, is the still
/// picture.
pub proof fn law_middle_frame_is_still(
    frame: GeneratedFlower,
    seed: Seq<char>,
    style: FlowerStyle,
    size: Option<u32>,
    variant: Option<u32>,
    night: bool,
    transparent: bool,
    hdr: bool,
)
    requires
        is_flower_picture(
            frame,
            seed,
            style,
            size,
            variant,
            night,
            transparent,
            hdr,
            SWAY_FRAMES[2] as int,
        ),
    ensures
        is_flower_picture(frame, seed, style, size, variant, night, transparent, hdr, 0),
{
}

/// Where no flower cell lands, a picture shows its background, or full
/// transparency when a transparent background was asked for.
pub proof fn law_uncovered_pixels_show_the_canvas(
    generated: GeneratedFlower,
    seed: Seq<char>,
    style: FlowerStyle,
    size: Option<u32>,
    variant: Option<u32>,
    night: bool,
    transparent: bool,
    hdr: bool,
    sway: int,
    x: int,
    y: int,
)
    requires
        is_flower_picture(generated, seed, style, size, variant, night, transparent, hdr, sway),
        0 <= x < generated.image.width(),
        0 <= y < generated.image.height(),
        spec_frame(
            spec_flower_cells(seed, style, variant, night, hdr),
            sway,
            style == FlowerStyle::FlowerWithStem,
        )[cell_index(
            x / (generated.image.width() / 16) as int,
            y / (generated.image.width() / 16) as int,
        )] is None,
    ensures
        generated.image.pixel_at(x, y) == (if transparent {
            TRANSPARENT
        } else {
            generated.background
        }),
{
    lemma_flower_picture_is_drawn(
        generated,
        seed,
        style,
        size,
        variant,
        night,
        transparent,
        hdr,
        sway,
    );
    lemma_uncovered_pixel(
        spec_canvas_pixel(generated.background, transparent),
        generated.image.width() as int,
        spec_flower_cells(seed, style, variant, night, hdr),
        sway,
        style == FlowerStyle::FlowerWithStem,
        x,
        y,
    );
}

/// The still picture shows the logical cells block by block: each pixel has
/// the colour of the cell its block stands for, or the canvas fill (the
/// background, or transparency) where that cell is empty.
pub proof fn law_still_picture_shows_the_cells(
    generated: GeneratedFlower,
    seed: Seq<char>,
    style: FlowerStyle,
    size: Option<u32>,
    variant: Option<u32>,
    night: bool,
    transparent: bool,
    hdr: bool,
    x: int,
    y: int,
)
    requires
        is_flower_picture(generated, seed, style, size, variant, night, transparent, hdr, 0),
        0 <= x < generated.image.width(),
        0 <= y < generated.image.height(),
    ensures
        generated.image.pixel_at(x, y) == match spec_flower_cells(
            seed,
            style,
            variant,
            night,
            hdr,
        )[cell_index(
            x / (generated.image.width() / 16) as int,
            y / (generated.image.width() / 16) as int,
        )] {
            Some(p) => p.color,
            None => if transparent {
                TRANSPARENT
            } else {
                generated.background
            },
        },
{
    lemma_flower_picture_is_drawn(generated, seed, style, size, variant, night, transparent, hdr, 0);
    lemma_still_pixel(
        spec_canvas_pixel(generated.background, transparent),
        generated.image.width() as int,
        spec_flower_cells(seed, style, variant, night, hdr),
        style == FlowerStyle::FlowerWithStem,
        x,
        y,
    );
}

/// Without a stem a flower sways as a whole: the frames that sway by 1
/// either way show the still picture, and a sway of 2 moves the picture one
/// block to the right (-2: to the left).
pub proof fn law_stemless_frames_shift_whole_blocks(
    still: GeneratedFlower,
    frame: GeneratedFlower,
    seed: Seq<char>,
    size: Option<u32>,
    variant: Option<u32>,
    night: bool,
    transparent: bool,
    hdr: bool,
    sway: int,
    x: int,
    y: int,
)
    requires
        is_flower_picture(
            still,
            seed,
            FlowerStyle::FlowerOnly,
            size,
            variant,
            night,
            transparent,
            hdr,
            0,
        ),
        is_flower_picture(
            frame,
            seed,
            FlowerStyle::FlowerOnly,
            size,
            variant,
            night,
            transparent,
            hdr,
            sway,
        ),
        -2 <= sway <= 2,
        0 <= x < still.image.width(),
        0 <= y < still.image.height(),
    ensures
        sway == 1 || sway == -1 ==> frame.image.pixel_at(x, y) == still.image.pixel_at(x, y),
        sway == 2 && x + still.image.width() / 16 < still.image.width() ==> frame.image.pixel_at(
            x + still.image.width() / 16,
            y,
        ) == still.image.pixel_at(x, y),
        sway == -2 && x + still.image.width() / 16 < still.image.width() ==> frame.image.pixel_at(
            x,
            y,
        ) == still.image.pixel_at(x + still.image.width() / 16, y),
{
    lemma_flower_picture_is_drawn(
        still,
        seed,
        FlowerStyle::FlowerOnly,
        size,
        variant,
        night,
        transparent,
        hdr,
        0,
    );
    lemma_flower_picture_is_drawn(
        frame,
        seed,
        FlowerStyle::FlowerOnly,
        size,
        variant,
        night,
        transparent,
        hdr,
        sway,
    );
    lemma_stemless_sway(
        spec_canvas_pixel(still.background, transparent),
        still.image.width() as int,
        spec_flower_cells(seed, FlowerStyle::FlowerOnly, variant, night, hdr),
        sway,
        x,
        y,
    );
}

/// Night and HDR change a flower's colours only: the same cells hold a
/// pixel, of the same parts, whatever the two switches are.
pub proof fn law_night_and_hdr_keep_the_shape(
    seed: Seq<char>,
    style: FlowerStyle,
    variant: Option<u32>,
    night1: bool,
    hdr1: bool,
    night2: bool,
    hdr2: bool,
)
    ensures
        same_shape(
            spec_flower_cells(seed, style, variant, night1, hdr1),
            spec_flower_cells(seed, style, variant, night2, hdr2),
        ),
{
    lemma_variant_cells_shape(
        seed,
        style,
        spec_normalize_flower_variant(variant),
        night1,
        hdr1,
        night2,
        hdr2,
    );
}

/// Recentring moves the whole flower: where there are pixels, every one
/// moves by the same centring shift and stays on the grid, so none is pushed
/// against an edge or lost; the bounding box ends up centred (its edges add
/// up to 15 or 16 each way); and recentring again changes nothing.
pub proof fn law_recentering_moves_the_flower_whole(cells: Seq<Option<Pixel>>)
    ensures
        spec_recenter(spec_recenter(cells)) == spec_recenter(cells),
        match bounds_upto(cells, 256) {
            None => spec_recenter(cells) == cells,
            Some((a, b, c, d)) => {
                let dx = centering_shift(a, b);
                let dy = centering_shift(c, d);
                &&& moves_within_grid(cells, dx, dy)
                &&& forall|j: int|
                    0 <= j < 256 ==> #[trigger] spec_recenter(cells)[j] == translated_source(
                        cells,
                        dx,
                        dy,
                        256,
                        j,
                    )
                &&& bounds_upto(spec_recenter(cells), 256) == Some(
                    (a + dx, b + dx, c + dy, d + dy),
                )
                &&& 15 <= (a + dx) + (b + dx) <= 16
                &&& 15 <= (c + dy) + (d + dy) <= 16
            },
        },
{
    lemma_recenter_translates(cells);
}

/// A generator is never seeded with state 0, on which mulberry32 would
/// start from a fixed point of its mixing.
pub proof fn law_seed_state_nonzero(seed: Seq<char>)
    ensures
        seed_state(seed) != 0,
{
}

/// Night and HDR adjustments keep a colour's alpha.
pub proof fn law_adjustments_keep_alpha(c: Rgba, role: ColorRole)
    ensures
        spec_to_night_color(c, role)[3] == c[3],
        spec_to_hdr_color(c, role)[3] == c[3],
{
    reveal(spec_to_night_color);
    reveal(spec_to_hdr_color);
}

/// Dithering leaves only black and white pixels, whatever the image.
pub proof fn law_dither_is_black_and_white(p: Seq<u8>, width: int, height: int)
    requires
        width >= 0,
        height >= 0,
        p.len() == width * height,
    ensures
        spec_dither(p, width, height).len() == p.len(),
        forall|i: int|
            0 <= i < p.len() ==> #[trigger] spec_dither(p, width, height)[i] == 0 || spec_dither(
                p,
                width,
                height,
            )[i] == 255,
{
    lemma_dither_prefix(p, width, height, width * height);
}

/// Where a pixel of a flower with a stem lands in a frame swaying by `s`:
/// a blossom pixel moves `s` columns, and one row down when the sway is
/// full (2 either way); a stem pixel moves by its share of that, its height
/// above the ground row 15 (at most 6) in sixths, rounded half up; a base
/// pixel stays.
pub open spec fn stem_sway_target(x: int, y: int, part: PixelPart, s: int) -> (int, int) {
    let drop: int = if s == 2 || s == -2 {
        1
    } else {
        0
    };
    match part {
        PixelPart::Flower => (x + s, y + drop),
        PixelPart::Stem => {
            let h: int = if 15 - y < 0 {
                0
            } else if 15 - y > 6 {
                6
            } else {
                15 - y
            };
            (x + (s * h + 3) / 6, y + (drop * h + 3) / 6)
        },
        PixelPart::Base => (x, y),
    }
}

/// In each frame of a swaying flower with a stem, every pixel is drawn
/// where its own part moves it (`stem_sway_target`), unless a pixel later in
/// row order lands on the same cell.
pub proof fn law_stem_frames_move_each_part(cells: Seq<Option<Pixel>>, sway: int, i: int)
    requires
        -2 <= sway <= 2,
        0 <= i < 256,
        cells[i] is Some,
        ({
            let t = stem_sway_target(i % 16, i / 16, cells[i]->0.part, sway);
            &&& 0 <= t.0 < 16
            &&& 0 <= t.1 < 16
            &&& forall|j: int|
                i < j < 256 && (#[trigger] cells[j]) is Some ==> stem_sway_target(
                    j % 16,
                    j / 16,
                    cells[j]->0.part,
                    sway,
                ) != t
        }),
    ensures
        ({
            let t = stem_sway_target(i % 16, i / 16, cells[i]->0.part, sway);
            spec_frame(cells, sway, true)[cell_index(t.0, t.1)] == Some(cells[i]->0.color)
        }),
{
    assert forall|j: int| 0 <= j < 256 && (#[trigger] cells[j]) is Some implies spec_transform_pixel(
        j % 16,
        j / 16,
        cells[j]->0.part,
        sway,
        true,
    ) == stem_sway_target(j % 16, j / 16, cells[j]->0.part, sway) by {}
    assert(cells[i] is Some);
    lemma_frame_places_pixel(cells, sway, true, i, 256);
}

/// Night and HDR adjust every colour of a flower by its role: night applies
/// the night adjustment of each colour's role to the day colours, and HDR
/// applies the HDR adjustment of each role to the colours it is given (day
/// or night).
pub proof fn law_night_and_hdr_adjust_each_role(state: u32, night: bool)
    ensures
        ({
            let day = spec_pick_colors(state, false, false);
            let dusk = spec_pick_colors(state, true, false);
            &&& dusk.palette[0] == spec_to_night_color(day.palette[0], ColorRole::Flower)
            &&& dusk.palette[1] == spec_to_night_color(day.palette[1], ColorRole::Flower)
            &&& dusk.palette[2] == spec_to_night_color(day.palette[2], ColorRole::Flower)
            &&& dusk.center_color == spec_to_night_color(day.center_color, ColorRole::Accent)
            &&& dusk.stem_color == spec_to_night_color(day.stem_color, ColorRole::Stem)
            &&& dusk.leaf_color == spec_to_night_color(day.leaf_color, ColorRole::Stem)
            &&& dusk.background == spec_to_night_color(day.background, ColorRole::Background)
            &&& dusk.center_highlight == spec_to_night_color(
                day.center_highlight,
                ColorRole::Accent,
            )
        }),
        ({
            let plain = spec_pick_colors(state, night, false);
            let bright = spec_pick_colors(state, night, true);
            &&& bright.palette[0] == spec_to_hdr_color(plain.palette[0], ColorRole::Flower)
            &&& bright.palette[1] == spec_to_hdr_color(plain.palette[1], ColorRole::Flower)
            &&& bright.palette[2] == spec_to_hdr_color(plain.palette[2], ColorRole::Flower)
            &&& bright.center_color == spec_to_hdr_color(plain.center_color, ColorRole::Accent)
            &&& bright.stem_color == spec_to_hdr_color(plain.stem_color, ColorRole::Stem)
            &&& bright.leaf_color == spec_to_hdr_color(plain.leaf_color, ColorRole::Stem)
            &&& bright.background == spec_to_hdr_color(plain.background, ColorRole::Background)
            &&& bright.center_highlight == spec_to_hdr_color(
                plain.center_highlight,
                ColorRole::Accent,
            )
        }),
{
}

/// The night background of a seed is the night adjustment of its day
/// background (each channel at a fifth), and the HDR background is the HDR
/// adjustment of the one it is given.
pub proof fn law_night_background_is_the_dimmed_day_background(
    seed: Seq<char>,
    night: bool,
)
    ensures
        spec_flower_background(seed, true, false) == spec_to_night_color(
            spec_flower_background(seed, false, false),
            ColorRole::Background,
        ),
        spec_flower_background(seed, night, true) == spec_to_hdr_color(
            spec_flower_background(seed, night, false),
            ColorRole::Background,
        ),
{
    law_night_and_hdr_adjust_each_role(seed_state(seed), night);
}

/// The delay between GIF frames: 250 ms when none is asked for, a requested
/// delay of at least 20 ms kept as it is, and shorter ones raised to 20 ms.
pub open spec fn frame_delay_floor(frame_delay_ms: Option<u32>) -> u32 {
    match frame_delay_ms {
        None => 250,
        Some(d) => if d >= 20 {
            d
        } else {
            20
        },
    }
}

/// The animated GIF of a flower shows each of its 8 frames for
/// `frame_delay_floor(frame_delay_ms)` milliseconds; asking for no delay is
/// asking for 250 ms, and asking for less than 20 ms is asking for 20 ms.
pub proof fn law_gif_frame_delay(
    seed: Seq<char>,
    style: FlowerStyle,
    size: Option<u32>,
    variant: Option<u32>,
    frame_delay_ms: Option<u32>,
    night: bool,
    transparent: bool,
    hdr: bool,
)
    ensures
        spec_flower_gif(seed, style, size, variant, frame_delay_ms, night, transparent, hdr)
            == encoded_rgba8_gif(
            Seq::new(
                8,
                |k: int|
                    rgba_bytes(
                        spec_flower_image(
                            seed,
                            style,
                            size,
                            variant,
                            night,
                            transparent,
                            hdr,
                            SWAY_FRAMES[k] as int,
                        ),
                    ),
            ),
            spec_normalize_flower_size(size),
            spec_normalize_flower_size(size),
            frame_delay_floor(frame_delay_ms),
        ),
        spec_flower_gif(seed, style, size, variant, frame_delay_ms, night, transparent, hdr)
            == spec_flower_gif(
            seed,
            style,
            size,
            variant,
            Some(frame_delay_floor(frame_delay_ms)),
            night,
            transparent,
            hdr,
        ),
{
}

/// Black for levels below 128, white from 128 up.
pub open spec fn nearest_extreme(v: int) -> int {
    if v < 128 {
        0
    } else {
        255
    }
}

/// `error * weight / 16`, truncated toward zero as integer division does.
pub open spec fn error_share(error: int, weight: int) -> int {
    if error * weight >= 0 {
        (error * weight) / 16
    } else {
        -((-(error * weight)) / 16)
    }
}

/// A level kept within `0..=255`.
pub open spec fn within_levels(v: int) -> int {
    if v < 0 {
        0
    } else if v > 255 {
        255
    } else {
        v
    }
}

/// Dithering pixel `k` makes it black or white and passes the difference
/// between its old and new level on, added (not taken away) to the
/// neighbours inside the image: 7/16 to the right, 3/16 below left, 5/16
/// below, 1/16 below right, each share truncated toward zero and the
/// neighbour kept within `0..=255`. No other pixel changes.
pub proof fn law_dither_step_passes_the_error_on(p: Seq<u8>, width: int, height: int, k: int)
    requires
        width > 0,
        p.len() == width * height,
        0 <= k < width * height,
    ensures
        ({
            let q = dither_step(p, width, height, k);
            let x = k % width;
            let y = k / width;
            let e = p[k] - nearest_extreme(p[k] as int);
            let right = x + 1 < width;
            let below = y + 1 < height;
            &&& q.len() == p.len()
            &&& q[k] == nearest_extreme(p[k] as int)
            &&& right ==> q[k + 1] == within_levels(p[k + 1] + error_share(e, 7))
            &&& below && x >= 1 ==> q[k + width - 1] == within_levels(
                p[k + width - 1] + error_share(e, 3),
            )
            &&& below ==> q[k + width] == within_levels(p[k + width] + error_share(e, 5))
            &&& below && right ==> q[k + width + 1] == within_levels(
                p[k + width + 1] + error_share(e, 1),
            )
            &&& forall|i: int|
                0 <= i < p.len() && i != k && !(right && i == k + 1) && !(below && x >= 1 && i == k
                    + width - 1) && !(below && i == k + width) && !(below && right && i == k
                    + width + 1) ==> #[trigger] q[i] == p[i]
        }),
{
    let x = k % width;
    let y = k / width;
    vstd::arithmetic::div_mod::lemma_fundamental_div_mod(k, width);
    assert(0 <= x < width);
    assert((y + 0) * width + (x + 1) == k + 1) by (nonlinear_arith)
        requires
            width * y + x == k,
    ;
    assert((y + 1) * width + (x - 1) == k + width - 1) by (nonlinear_arith)
        requires
            width * y + x == k,
    ;
    assert((y + 1) * width + (x + 0) == k + width) by (nonlinear_arith)
        requires
            width * y + x == k,
    ;
    assert((y + 1) * width + (x + 1) == k + width + 1) by (nonlinear_arith)
        requires
            width * y + x == k,
    ;
    assert(y + 1 < height ==> k + width < width * height) by (nonlinear_arith)
        requires
            width * y + x == k,
            0 <= x < width,
    ;
    assert(y + 1 < height && x + 1 < width ==> k + width + 1 < width * height) by (nonlinear_arith)
        requires
            width * y + x == k,
            0 <= x < width,
    ;
    assert(0 <= y < height) by (nonlinear_arith)
        requires
            width * y + x == k,
            0 <= x < width,
            0 <= k < width * height,
    ;
    assert(width * (y + 1) <= width * height && width * (y + 1) == width * y + width)
        by (nonlinear_arith)
        requires
            0 <= y < height,
            width > 0,
    ;
    let q = dither_step(p, width, height, k);
    let e = p[k] - nearest_extreme(p[k] as int);
    let new = crate::dither::quantize(p[k]);
    assert(new == nearest_extreme(p[k] as int));
    let p1 = p.update(k, new);
    let p2 = crate::dither::spread(p1, width, height, x, y, 1, 0, e, 7);
    let p3 = crate::dither::spread(p2, width, height, x, y, -1, 1, e, 3);
    let p4 = crate::dither::spread(p3, width, height, x, y, 0, 1, e, 5);
    let p5 = crate::dither::spread(p4, width, height, x, y, 1, 1, e, 1);
    assert(q == p5);
    let right = x + 1 < width;
    let below = y + 1 < height;
    assert(p2.len() == p.len() && p3.len() == p.len() && p4.len() == p.len() && p5.len()
        == p.len());
    assert(right ==> p2[k + 1] == within_levels(p[k + 1] + error_share(e, 7)));
    assert(below && x >= 1 ==> p3[k + width - 1] == within_levels(
        p[k + width - 1] + error_share(e, 3),
    ));
    assert(below ==> p4[k + width] == within_levels(p[k + width] + error_share(e, 5)));
    assert(below && right ==> p5[k + width + 1] == within_levels(
        p[k + width + 1] + error_share(e, 1),
    ));
    assert(q[k] == new);
    assert(right ==> q[k + 1] == p2[k + 1]);
    assert(below && x >= 1 ==> q[k + width - 1] == p3[k + width - 1]);
    assert(below ==> q[k + width] == p4[k + width]);
}

/// Each pixel of the dithered image is its level, as the errors of the
/// pixels before it (in row order) left it, made black or white; and the
/// first pixel's error reaches the second through the right-hand share.
pub proof fn law_dither_rounds_what_the_errors_left(p: Seq<u8>, width: int, height: int, k: int)
    requires
        width > 0,
        p.len() == width * height,
        0 <= k < width * height,
    ensures
        spec_dither(p, width, height)[k] == nearest_extreme(dither_upto(p, width, height, k)[k] as int),
        k == 1 && width >= 2 ==> spec_dither(p, width, height)[1] == nearest_extreme(
            within_levels(p[1] + error_share(p[0] - nearest_extreme(p[0] as int), 7)),
        ),
{
    crate::dither::lemma_dithered_pixel_stays(p, width, height, k, width * height);
    crate::dither::lemma_upto_len(p, width, height, k);
    law_dither_step_passes_the_error_on(dither_upto(p, width, height, k), width, height, k);
    if k == 1 && width >= 2 {
        assert(dither_upto(p, width, height, 0) == p);
        law_dither_step_passes_the_error_on(p, width, height, 0);
        assert(0int % width == 0 && 0int / width == 0);
    }
}

proof fn lemma_dither_prefix(p: Seq<u8>, width: int, height: int, n: int)
    requires
        width >= 0,
        height >= 0,
        p.len() == width * height,
        0 <= n <= width * height,
    ensures
        dither_upto(p, width, height, n).len() == p.len(),
        forall|i: int|
            0 <= i < n ==> #[trigger] dither_upto(p, width, height, n)[i] == 0 || dither_upto(
                p,
                width,
                height,
                n,
            )[i] == 255,
    decreases n,
{
    if n > 0 {
        lemma_dither_prefix(p, width, height, n - 1);
        let q = dither_upto(p, width, height, n - 1);
        assert(width > 0) by (nonlinear_arith)
            requires
                0 < n <= width * height,
                width >= 0,
                height >= 0,
        ;
        crate::dither::lemma_step_keeps_prefix(q, width, height, n - 1);
        assert(dither_upto(p, width, height, n) == dither_step(q, width, height, n - 1));
    }
}

} // verus!
