//! Pixel-art flowers: the shape and colours of a flower drawn from a seed.

use vstd::prelude::*;
use crate::decimal::{decimal_digits, push_decimal};
use crate::grid::{
    empty_cells, spec_add_mirrored, spec_add_part, spec_recenter, Pixel, PixelGrid, PixelPart,
};
use crate::palette::{pick_flower_colors, spec_pick_colors, FlowerColorSet};
use crate::random::{advance, chance_from, index_from, seed_state, SeededRandom};
use crate::single::abs;

verus! {

pub const DEFAULT_OUTPUT_SIZE: u32 = 32;

pub const MIN_OUTPUT_SIZE: u32 = 16;

pub const MAX_OUTPUT_SIZE: u32 = 256;

/// The number of flower variants; a variant number is taken modulo this.
pub const FLOWER_VARIANT_COUNT: u8 = 5;

/// The petal pixels left of the centre line, as offsets from the centre.
pub const PETAL_SHAPE: [(i32, i32); 14] = [
    (0, -3),
    (-1, -3),
    (0, -2),
    (-1, -2),
    (-2, -2),
    (-3, -1),
    (-2, -1),
    (-3, 0),
    (-2, 0),
    (-3, 1),
    (-2, 1),
    (-2, 2),
    (-1, 2),
    (0, 2),
];

/// Whether the flower stands on a stem or floats alone.
#[derive(Debug, Clone, Copy, PartialEq, Eq, Structural)]
pub enum FlowerStyle {
    FlowerWithStem,
    FlowerOnly,
}

// ---------------------------------------------------------------- options

/// The output size: the given size or 32, clamped to `16..=256` and rounded
/// to the nearest multiple of 16 (halves up).
pub open spec fn spec_normalize_flower_size(size: Option<u32>) -> u32 {
    let s = match size {
        Some(s) => s as int,
        None => 32,
    };
    let c = if s < 16 {
        16
    } else if s > 256 {
        256
    } else {
        s
    };
    (((c + 8) / 16) * 16) as u32
}

pub fn normalize_flower_size(size: Option<u32>) -> (n: u32)
    ensures
        n == spec_normalize_flower_size(size),
        16 <= n <= 256,
        n % 16 == 0,
{
    let s = match size {
        Some(s) => s,
        None => DEFAULT_OUTPUT_SIZE,
    };
    let c = if s < MIN_OUTPUT_SIZE {
        MIN_OUTPUT_SIZE
    } else if s > MAX_OUTPUT_SIZE {
        MAX_OUTPUT_SIZE
    } else {
        s
    };
    ((c + 8) / 16) * 16
}

/// The variant number: the given one or 0, modulo the number of variants.
pub open spec fn spec_normalize_flower_variant(variant: Option<u32>) -> u8 {
    match variant {
        Some(v) => (v % 5) as u8,
        None => 0,
    }
}

pub fn normalize_flower_variant(variant: Option<u32>) -> (v: u8)
    ensures
        v == spec_normalize_flower_variant(variant),
        v < FLOWER_VARIANT_COUNT,
{
    let v = match variant {
        Some(v) => v,
        None => 0,
    };
    (v % FLOWER_VARIANT_COUNT as u32) as u8
}

// ---------------------------------------------------------------- steps

/// Draws a value and, when it exceeds `percent` / 100, adds a mirrored pair.
pub open spec fn chance_mirror(
    cells: Seq<Option<Pixel>>,
    state: u32,
    percent: u64,
    cx: int,
    cy: int,
    ox: int,
    oy: int,
    color: [u8; 4],
) -> (Seq<Option<Pixel>>, u32) {
    (
        if chance_from(state, percent) {
            spec_add_mirrored(cells, cx, cy, ox, oy, color)
        } else {
            cells
        },
        advance(state),
    )
}

fn maybe_add_mirrored(
    pixels: &mut PixelGrid,
    rng: &mut SeededRandom,
    percent: u64,
    cx: i32,
    cy: i32,
    ox: i32,
    oy: i32,
    color: [u8; 4],
)
    requires
        old(pixels).wf(),
        percent <= 100,
        i32::MIN <= cx + ox <= i32::MAX,
        i32::MIN <= cx - ox <= i32::MAX,
        i32::MIN <= cy + oy <= i32::MAX,
    ensures
        final(pixels).wf(),
        (final(pixels)@, final(rng).state()) == chance_mirror(
            old(pixels)@,
            old(rng).state(),
            percent,
            cx as int,
            cy as int,
            ox as int,
            oy as int,
            color,
        ),
{
    if rng.chance(percent) {
        pixels.add_mirrored(cx, cy, ox, oy, color);
    }
}

/// The colour of a petal pixel: the outline colour at distance 4 or more
/// from the centre, otherwise a draw picks the light colour (above 0.72) or
/// the main one.
pub open spec fn petal_color(state: u32, ox: int, oy: int, palette: [[u8; 4]; 3]) -> ([u8; 4], u32) {
    if abs(ox) + abs(oy) >= 4 {
        (palette[1], state)
    } else if chance_from(state, 72) {
        (palette[2], advance(state))
    } else {
        (palette[0], advance(state))
    }
}

/// The first `k` petal pixels of the shape, mirrored, around `(8, cy)`.
pub open spec fn petals_upto(
    cells: Seq<Option<Pixel>>,
    state: u32,
    cy: int,
    palette: [[u8; 4]; 3],
    k: int,
) -> (Seq<Option<Pixel>>, u32)
    decreases k,
{
    if k <= 0 {
        (cells, state)
    } else {
        let prev = petals_upto(cells, state, cy, palette, k - 1);
        let offset = PETAL_SHAPE[k - 1];
        let pick = petal_color(prev.1, offset.0 as int, offset.1 as int, palette);
        (spec_add_mirrored(prev.0, 8, cy, offset.0 as int, offset.1 as int, pick.0), pick.1)
    }
}

/// The four mirrored pairs that shape blossom `variant`; the last variant
/// also adds one pixel below the centre, left or right by a draw.
pub open spec fn spec_flower_variant(
    cells: Seq<Option<Pixel>>,
    state: u32,
    cx: int,
    cy: int,
    palette: [[u8; 4]; 3],
    variant: int,
) -> (Seq<Option<Pixel>>, u32) {
    let v = variant % 5;
    let p0 = palette[0];
    let p1 = palette[1];
    let p2 = palette[2];
    if v == 0 {
        let c1 = spec_add_mirrored(cells, cx, cy, 3, -1, p0);
        let c2 = spec_add_mirrored(c1, cx, cy, 3, 0, p1);
        let c3 = spec_add_mirrored(c2, cx, cy, 3, 1, p0);
        (spec_add_mirrored(c3, cx, cy, 2, 2, p1), state)
    } else if v == 1 {
        let c1 = spec_add_mirrored(cells, cx, cy, 0, -4, p1);
        let c2 = spec_add_mirrored(c1, cx, cy, 1, -4, p1);
        let c3 = spec_add_mirrored(c2, cx, cy, 0, 3, p0);
        (spec_add_mirrored(c3, cx, cy, 1, 3, p1), state)
    } else if v == 2 {
        let c1 = spec_add_mirrored(cells, cx, cy, 4, 0, p1);
        let c2 = spec_add_mirrored(c1, cx, cy, 4, 1, p1);
        let c3 = spec_add_mirrored(c2, cx, cy, 3, -2, p0);
        (spec_add_mirrored(c3, cx, cy, 3, 2, p0), state)
    } else if v == 3 {
        let c1 = spec_add_mirrored(cells, cx, cy, 1, -3, p2);
        let c2 = spec_add_mirrored(c1, cx, cy, 2, -2, p2);
        let c3 = spec_add_mirrored(c2, cx, cy, 2, 1, p2);
        (spec_add_mirrored(c3, cx, cy, 1, 2, p2), state)
    } else {
        let c1 = spec_add_mirrored(cells, cx, cy, 2, -3, p1);
        let c2 = spec_add_mirrored(c1, cx, cy, 3, -2, p0);
        let c3 = spec_add_mirrored(c2, cx, cy, 3, 2, p1);
        let x = if chance_from(state, 50) {
            cx - 1
        } else {
            cx + 1
        };
        (spec_add_part(c3, x, cy + 3, p0, PixelPart::Flower), advance(state))
    }
}

fn add_flower_variant(
    pixels: &mut PixelGrid,
    rng: &mut SeededRandom,
    center_x: i32,
    center_y: i32,
    palette: [[u8; 4]; 3],
    variant: u8,
)
    requires
        old(pixels).wf(),
        i32::MIN + 4 <= center_x <= i32::MAX - 4,
        i32::MIN + 4 <= center_y <= i32::MAX - 3,
    ensures
        final(pixels).wf(),
        (final(pixels)@, final(rng).state()) == spec_flower_variant(
            old(pixels)@,
            old(rng).state(),
            center_x as int,
            center_y as int,
            palette,
            variant as int,
        ),
{
    let cx = center_x;
    let cy = center_y;
    match variant % FLOWER_VARIANT_COUNT {
        0 => {
            pixels.add_mirrored(cx, cy, 3, -1, palette[0]);
            pixels.add_mirrored(cx, cy, 3, 0, palette[1]);
            pixels.add_mirrored(cx, cy, 3, 1, palette[0]);
            pixels.add_mirrored(cx, cy, 2, 2, palette[1]);
        },
        1 => {
            pixels.add_mirrored(cx, cy, 0, -4, palette[1]);
            pixels.add_mirrored(cx, cy, 1, -4, palette[1]);
            pixels.add_mirrored(cx, cy, 0, 3, palette[0]);
            pixels.add_mirrored(cx, cy, 1, 3, palette[1]);
        },
        2 => {
            pixels.add_mirrored(cx, cy, 4, 0, palette[1]);
            pixels.add_mirrored(cx, cy, 4, 1, palette[1]);
            pixels.add_mirrored(cx, cy, 3, -2, palette[0]);
            pixels.add_mirrored(cx, cy, 3, 2, palette[0]);
        },
        3 => {
            pixels.add_mirrored(cx, cy, 1, -3, palette[2]);
            pixels.add_mirrored(cx, cy, 2, -2, palette[2]);
            pixels.add_mirrored(cx, cy, 2, 1, palette[2]);
            pixels.add_mirrored(cx, cy, 1, 2, palette[2]);
        },
        _ => {
            pixels.add_mirrored(cx, cy, 2, -3, palette[1]);
            pixels.add_mirrored(cx, cy, 3, -2, palette[0]);
            pixels.add_mirrored(cx, cy, 3, 2, palette[1]);
            let x = if rng.chance(50) {
                cx - 1
            } else {
                cx + 1
            };
            pixels.add(x, cy + 3, palette[0]);
        },
    }
}

pub open spec fn clamp_stem(v: int) -> int {
    if v < 6 {
        6
    } else if v > 9 {
        9
    } else {
        v
    }
}

/// The first `n` rows of the stem, from row `cy + 2` down: below row
/// `cy + 4` each row first draws, and above 0.72 the stem steps sideways by
/// `lean`, staying in columns 6 to 9. Gives the cells, the state and the
/// column reached.
pub open spec fn stem_rows_upto(
    cells: Seq<Option<Pixel>>,
    state: u32,
    stem_x: int,
    cy: int,
    lean: int,
    color: [u8; 4],
    n: int,
) -> (Seq<Option<Pixel>>, u32, int)
    decreases n,
{
    if n <= 0 {
        (cells, state, stem_x)
    } else {
        let prev = stem_rows_upto(cells, state, stem_x, cy, lean, color, n - 1);
        let y = cy + 2 + (n - 1);
        let step = if y > cy + 4 {
            (
                advance(prev.1),
                if chance_from(prev.1, 72) {
                    clamp_stem(prev.2 + lean)
                } else {
                    prev.2
                },
            )
        } else {
            (prev.1, prev.2)
        };
        (spec_add_part(prev.0, step.1, y, color, PixelPart::Stem), step.0, step.1)
    }
}

/// A stem from below the blossom to row 14, a leaf on one side (side and
/// height by draws), maybe a second leaf on the other side, and a base of
/// three pixels on row 15.
pub open spec fn spec_add_stem(
    cells: Seq<Option<Pixel>>,
    state: u32,
    cx: int,
    cy: int,
    lean: int,
    stem_color: [u8; 4],
    leaf_color: [u8; 4],
) -> (Seq<Option<Pixel>>, u32) {
    let rows = stem_rows_upto(cells, state, cx, cy, lean, stem_color, 13 - cy);
    let sx = rows.2;
    let leaf_y = cy + 5 + index_from(rows.1, 3);
    let s2 = advance(rows.1);
    let dir = if chance_from(s2, 50) {
        1int
    } else {
        -1int
    };
    let s3 = advance(s2);
    let c1 = spec_add_part(rows.0, sx + dir, leaf_y, leaf_color, PixelPart::Stem);
    let c2 = spec_add_part(c1, sx + dir * 2, leaf_y - 1, leaf_color, PixelPart::Stem);
    let c3 = spec_add_part(c2, sx + dir * 2, leaf_y, leaf_color, PixelPart::Stem);
    let opposite_y = if leaf_y + 2 < 13 {
        leaf_y + 2
    } else {
        13
    };
    let c4 = if chance_from(s3, 45) {
        spec_add_part(
            spec_add_part(c3, sx - dir, opposite_y, leaf_color, PixelPart::Stem),
            sx - dir * 2,
            opposite_y - 1,
            leaf_color,
            PixelPart::Stem,
        )
    } else {
        c3
    };
    let c5 = spec_add_part(c4, sx - 1, 15, stem_color, PixelPart::Base);
    let c6 = spec_add_part(c5, sx, 15, stem_color, PixelPart::Base);
    (spec_add_part(c6, sx + 1, 15, stem_color, PixelPart::Base), advance(s3))
}

fn add_stem(
    pixels: &mut PixelGrid,
    random: &mut SeededRandom,
    center_x: i32,
    center_y: i32,
    stem_lean: i32,
    stem_color: [u8; 4],
    leaf_color: [u8; 4],
)
    requires
        old(pixels).wf(),
        6 <= center_x <= 9,
        0 <= center_y <= 12,
        -1 <= stem_lean <= 1,
    ensures
        final(pixels).wf(),
        (final(pixels)@, final(random).state()) == spec_add_stem(
            old(pixels)@,
            old(random).state(),
            center_x as int,
            center_y as int,
            stem_lean as int,
            stem_color,
            leaf_color,
        ),
{
    let ghost cells0 = pixels@;
    let ghost state0 = random.state();
    let mut stem_x = center_x;
    let mut y = center_y + 2;
    while y <= 14
        invariant
            pixels.wf(),
            0 <= center_y <= 12,
            center_y + 2 <= y <= 15,
            -1 <= stem_lean <= 1,
            6 <= stem_x <= 9,
            (pixels@, random.state(), stem_x as int) == stem_rows_upto(
                cells0,
                state0,
                center_x as int,
                center_y as int,
                stem_lean as int,
                stem_color,
                (y - center_y - 2) as int,
            ),
        decreases 15 - y,
    {
        if y > center_y + 4 && random.chance(72) {
            let moved = stem_x + stem_lean;
            stem_x = if moved < 6 {
                6
            } else if moved > 9 {
                9
            } else {
                moved
            };
        }
        pixels.add_part(stem_x, y, stem_color, PixelPart::Stem);
        y += 1;
    }
    let leaf_y = center_y + 5 + random.index(3) as i32;
    let leaf_direction: i32 = if random.chance(50) {
        1
    } else {
        -1
    };
    pixels.add_part(stem_x + leaf_direction, leaf_y, leaf_color, PixelPart::Stem);
    pixels.add_part(stem_x + leaf_direction * 2, leaf_y - 1, leaf_color, PixelPart::Stem);
    pixels.add_part(stem_x + leaf_direction * 2, leaf_y, leaf_color, PixelPart::Stem);
    if random.chance(45) {
        let opposite_y = if leaf_y + 2 < 13 {
            leaf_y + 2
        } else {
            13
        };
        pixels.add_part(stem_x - leaf_direction, opposite_y, leaf_color, PixelPart::Stem);
        pixels.add_part(stem_x - leaf_direction * 2, opposite_y - 1, leaf_color, PixelPart::Stem);
    }
    pixels.add_part(stem_x - 1, 15, stem_color, PixelPart::Base);
    pixels.add_part(stem_x, 15, stem_color, PixelPart::Base);
    pixels.add_part(stem_x + 1, 15, stem_color, PixelPart::Base);
}


/// The seed of the shape generator: the seed, ":variant:" and the variant
/// number in decimal.
pub open spec fn variation_seed(seed: Seq<char>, variant: u8) -> Seq<char> {
    seed + ":variant:"@ + decimal_digits(variant as nat)
}

/// The blossom of a flower without stem: a blossom variant picked by a draw,
/// then four mirrored pairs, each by its own draw.
pub open spec fn spec_floating_blossom(
    cells: Seq<Option<Pixel>>,
    state: u32,
    cy: int,
    palette: [[u8; 4]; 3],
) -> (Seq<Option<Pixel>>, u32) {
    let blossom = index_from(state, 5);
    let v = spec_flower_variant(cells, advance(state), 8, cy, palette, blossom);
    let a = chance_mirror(v.0, v.1, 55, 8, cy, 2, -3, palette[1]);
    let b = chance_mirror(a.0, a.1, 60, 8, cy, 3, -1, palette[2]);
    let c = chance_mirror(b.0, b.1, 65, 8, cy, 2, 3, palette[1]);
    chance_mirror(c.0, c.1, 70, 8, cy, 4, 0, palette[1])
}

/// The blossom: the petals, four extra mirrored pairs by draws, for a flower
/// without stem the floating blossom, the 2 by 2 centre and, by a draw, its
/// highlight.
pub open spec fn spec_blossom(
    state: u32,
    cy: int,
    include_stem: bool,
    colors: FlowerColorSet,
) -> (Seq<Option<Pixel>>, u32) {
    let palette = colors.palette;
    let petals = petals_upto(empty_cells(), state, cy, palette, 14);
    let a = chance_mirror(petals.0, petals.1, 45, 8, cy, 3, 0, palette[1]);
    let b = chance_mirror(a.0, a.1, 50, 8, cy, 1, -4, palette[1]);
    let c = chance_mirror(b.0, b.1, 55, 8, cy, 3, 1, palette[0]);
    let d = chance_mirror(c.0, c.1, 60, 8, cy, 1, 3, palette[1]);
    let e = if include_stem {
        d
    } else {
        spec_floating_blossom(d.0, d.1, cy, palette)
    };
    let cc = colors.center_color;
    let c1 = spec_add_part(e.0, 8, cy, cc, PixelPart::Flower);
    let c2 = spec_add_part(c1, 7, cy, cc, PixelPart::Flower);
    let c3 = spec_add_part(c2, 8, cy - 1, cc, PixelPart::Flower);
    let c4 = spec_add_part(c3, 7, cy - 1, cc, PixelPart::Flower);
    (
        if chance_from(e.1, 40) {
            spec_add_part(c4, 7, cy - 1, colors.center_highlight, PixelPart::Flower)
        } else {
            c4
        },
        advance(e.1),
    )
}

/// The logical pixels of a flower, for the variant asked for.
pub open spec fn spec_flower_cells(
    seed: Seq<char>,
    style: FlowerStyle,
    variant: Option<u32>,
    night: bool,
    hdr: bool,
) -> Seq<Option<Pixel>> {
    spec_variant_cells(seed, style, spec_normalize_flower_variant(variant), night, hdr)
}

/// The logical pixels of variant `v` of a flower. The colours come from a
/// generator seeded with `seed`; the shape from one seeded with the variation
/// seed: a centre row (6 or 7 by a draw with a stem, 8 without), a stem lean
/// by a draw, the blossom, then the stem or, without a stem, recentring.
pub open spec fn spec_variant_cells(
    seed: Seq<char>,
    style: FlowerStyle,
    v: u8,
    night: bool,
    hdr: bool,
) -> Seq<Option<Pixel>> {
    let include_stem = style == FlowerStyle::FlowerWithStem;
    let colors = spec_pick_colors(seed_state(seed), night, hdr);
    let s0 = seed_state(variation_seed(seed, v));
    let cy = if include_stem {
        6 + index_from(s0, 2)
    } else {
        8
    };
    let s1 = if include_stem {
        advance(s0)
    } else {
        s0
    };
    let lean = if chance_from(s1, 50) {
        1int
    } else {
        -1int
    };
    let blossom = spec_blossom(advance(s1), cy, include_stem, colors);
    if include_stem {
        spec_add_stem(blossom.0, blossom.1, 8, cy, lean, colors.stem_color, colors.leaf_color).0
    } else {
        spec_recenter(blossom.0)
    }
}

/// The background colour of a flower: it comes from the seed alone.
pub open spec fn spec_flower_background(seed: Seq<char>, night: bool, hdr: bool) -> [u8; 4] {
    spec_pick_colors(seed_state(seed), night, hdr).background
}

/// The logical pixels of a flower and its background colour.
pub struct GeneratedFlowerPixels {
    pub pixels: PixelGrid,
    pub background: [u8; 4],
}

fn add_petals(
    pixels: &mut PixelGrid,
    rng: &mut SeededRandom,
    center_y: i32,
    palette: [[u8; 4]; 3],
)
    requires
        old(pixels).wf(),
        0 <= center_y <= 16,
    ensures
        final(pixels).wf(),
        (final(pixels)@, final(rng).state()) == petals_upto(
            old(pixels)@,
            old(rng).state(),
            center_y as int,
            palette,
            14,
        ),
{
    let ghost cells0 = pixels@;
    let ghost state0 = rng.state();
    for k in 0..14
        invariant
            pixels.wf(),
            0 <= center_y <= 16,
            (pixels@, rng.state()) == petals_upto(cells0, state0, center_y as int, palette, k as int),
    {
        let (offset_x, offset_y) = PETAL_SHAPE[k];
        let ax: i32 = if offset_x < 0 {
            -offset_x
        } else {
            offset_x
        };
        let ay: i32 = if offset_y < 0 {
            -offset_y
        } else {
            offset_y
        };
        let color = if ax + ay >= 4 {
            palette[1]
        } else if rng.chance(72) {
            palette[2]
        } else {
            palette[0]
        };
        pixels.add_mirrored(8, center_y, offset_x, offset_y, color);
    }
}

/// Draws the logical pixels of a flower.
pub fn generate_flower_pixels(
    seed: &str,
    style: FlowerStyle,
    variant: Option<u32>,
    night: bool,
    hdr: bool,
) -> (generated: GeneratedFlowerPixels)
    ensures
        generated.pixels.wf(),
        generated.pixels@ == spec_flower_cells(seed@, style, variant, night, hdr),
        generated.background == spec_flower_background(seed@, night, hdr),
{
    let variant = normalize_flower_variant(variant);
    let include_stem = match style {
        FlowerStyle::FlowerWithStem => true,
        FlowerStyle::FlowerOnly => false,
    };

    let mut identity_rng = SeededRandom::new(seed);
    let colors = pick_flower_colors(&mut identity_rng, night, hdr);

    let mut variation_seed_text = seed.to_owned();
    variation_seed_text.append(":variant:");
    push_decimal(&mut variation_seed_text, variant as u32);
    let mut shape_rng = SeededRandom::new(variation_seed_text.as_str());

    let palette = colors.palette;
    let center_x: i32 = 8;
    let center_y: i32 = if include_stem {
        6 + shape_rng.index(2) as i32
    } else {
        8
    };
    let stem_lean: i32 = if shape_rng.chance(50) {
        1
    } else {
        -1
    };
    let ghost blossom_state = shape_rng.state();

    let mut pixels = PixelGrid::new();
    add_petals(&mut pixels, &mut shape_rng, center_y, palette);

    maybe_add_mirrored(&mut pixels, &mut shape_rng, 45, center_x, center_y, 3, 0, palette[1]);
    maybe_add_mirrored(&mut pixels, &mut shape_rng, 50, center_x, center_y, 1, -4, palette[1]);
    maybe_add_mirrored(&mut pixels, &mut shape_rng, 55, center_x, center_y, 3, 1, palette[0]);
    maybe_add_mirrored(&mut pixels, &mut shape_rng, 60, center_x, center_y, 1, 3, palette[1]);

    if !include_stem {
        let blossom_variant = shape_rng.index(FLOWER_VARIANT_COUNT as usize) as u8;
        add_flower_variant(
            &mut pixels,
            &mut shape_rng,
            center_x,
            center_y,
            palette,
            blossom_variant,
        );
        maybe_add_mirrored(&mut pixels, &mut shape_rng, 55, center_x, center_y, 2, -3, palette[1]);
        maybe_add_mirrored(&mut pixels, &mut shape_rng, 60, center_x, center_y, 3, -1, palette[2]);
        maybe_add_mirrored(&mut pixels, &mut shape_rng, 65, center_x, center_y, 2, 3, palette[1]);
        maybe_add_mirrored(&mut pixels, &mut shape_rng, 70, center_x, center_y, 4, 0, palette[1]);
    }
    pixels.add(center_x, center_y, colors.center_color);
    pixels.add(center_x - 1, center_y, colors.center_color);
    pixels.add(center_x, center_y - 1, colors.center_color);
    pixels.add(center_x - 1, center_y - 1, colors.center_color);

    if shape_rng.chance(40) {
        pixels.add(center_x - 1, center_y - 1, colors.center_highlight);
    }
    assert(pixels@ == spec_blossom(blossom_state, center_y as int, include_stem, colors).0);

    if include_stem {
        add_stem(
            &mut pixels,
            &mut shape_rng,
            center_x,
            center_y,
            stem_lean,
            colors.stem_color,
            colors.leaf_color,
        );
    } else {
        pixels.recenter();
    }
    GeneratedFlowerPixels { pixels, background: colors.background }
}

} // verus!
