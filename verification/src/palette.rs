//! The colours of a flower: fixed palettes picked by the seed, with night and
//! HDR adjustments.

use vstd::prelude::*;
use crate::random::{advance, index_from, SeededRandom};
use crate::single::{
    single_add, single_mul, single_sub, single_third, single_to_byte, Single,
};

verus! {

/// An RGBA colour.
pub type Rgba = [u8; 4];

pub const PETAL_PALETTES: [[[u8; 4]; 3]; 7] = [
    [[0xff, 0x6b, 0x8a, 255], [0xd9, 0x36, 0x63, 255], [0xff, 0x9d, 0xb2, 255]],
    [[0xa7, 0x8b, 0xfa, 255], [0x75, 0x57, 0xd8, 255], [0xc4, 0xb5, 0xfd, 255]],
    [[0x60, 0xa5, 0xfa, 255], [0x25, 0x63, 0xeb, 255], [0x93, 0xc5, 0xfd, 255]],
    [[0xfb, 0xbf, 0x24, 255], [0xd9, 0x77, 0x06, 255], [0xfd, 0xe6, 0x8a, 255]],
    [[0xfb, 0x71, 0x85, 255], [0xe1, 0x1d, 0x48, 255], [0xfd, 0xa4, 0xaf, 255]],
    [[0x2d, 0xd4, 0xbf, 255], [0x0f, 0x9f, 0x91, 255], [0x99, 0xf6, 0xe4, 255]],
    [[0xf4, 0x72, 0xb6, 255], [0xc0, 0x26, 0x7d, 255], [0xf9, 0xa8, 0xd4, 255]],
];

pub const CENTER_COLORS: [[u8; 4]; 4] = [
    [0xfa, 0xcc, 0x15, 255],
    [0xf5, 0x9e, 0x0b, 255],
    [0xfd, 0xe0, 0x47, 255],
    [0xfb, 0x92, 0x3c, 255],
];

pub const STEM_COLORS: [[u8; 4]; 4] = [
    [0x15, 0x80, 0x3d, 255],
    [0x16, 0xa3, 0x4a, 255],
    [0x4d, 0x7c, 0x0f, 255],
    [0x05, 0x96, 0x69, 255],
];

pub const BACKGROUNDS: [[u8; 4]; 6] = [
    [0xf4, 0xf1, 0xe8, 255],
    [0xe8, 0xf0, 0xff, 255],
    [0xfc, 0xe8, 0xee, 255],
    [0xe8, 0xf8, 0xef, 255],
    [0xff, 0xf3, 0xd9, 255],
    [0xee, 0xe8, 0xff, 255],
];

pub const CENTER_HIGHLIGHT: [u8; 4] = [0xff, 0xf3, 0xa3, 255];

/// The fully transparent pixel.
pub const TRANSPARENT: [u8; 4] = [0, 0, 0, 0];

/// The colour a canvas starts with.
pub open spec fn spec_canvas_pixel(background: Rgba, transparent: bool) -> Rgba {
    if transparent {
        TRANSPARENT
    } else {
        background
    }
}

pub fn canvas_pixel(background: [u8; 4], transparent: bool) -> (pixel: [u8; 4])
    ensures
        pixel == spec_canvas_pixel(background, transparent),
{
    if transparent {
        TRANSPARENT
    } else {
        background
    }
}

/// What a colour is used for, which decides how it is adjusted.
#[derive(Clone, Copy, PartialEq, Eq, Debug)]
pub enum ColorRole {
    Background,
    Stem,
    Flower,
    Accent,
}

/// The colours of one flower.
#[derive(Clone, Copy, PartialEq, Eq, Debug)]
pub struct FlowerColorSet {
    pub palette: [[u8; 4]; 3],
    pub center_color: [u8; 4],
    pub stem_color: [u8; 4],
    pub leaf_color: [u8; 4],
    pub background: [u8; 4],
    pub center_highlight: [u8; 4],
}

// ---------------------------------------------------------------- HDR
//
// The adjustments are single-precision arithmetic: each step below is one
// binary32 operation, rounded as the hardware rounds it (see `single`).

/// A byte as a binary32 value.
pub open spec fn byte_value(b: u8) -> (int, int) {
    (b as int, 0)
}

/// Saturation and brightness that HDR gives each role: the binary32 values
/// nearest 1.12 and 1.06, 1.25 and 1.08, 1.40 and 1.15, 1.30 and 1.22.
pub open spec fn hdr_factors(role: ColorRole) -> ((int, int), (int, int)) {
    match role {
        ColorRole::Background => ((9395241, -23), (2222981, -21)),
        ColorRole::Stem => ((5, -2), (9059697, -23)),
        ColorRole::Flower => ((11744051, -23), (9646899, -23)),
        ColorRole::Accent => ((5452595, -22), (5117051, -22)),
    }
}

/// `(r + g + b) / 3` in binary32.
pub open spec fn spec_gray(c: Rgba) -> (int, int) {
    single_third(single_add(single_add(byte_value(c[0]), byte_value(c[1])), byte_value(c[2])))
}

/// One HDR channel: `(gray + (channel - gray) * saturation) * brightness`,
/// rounded to the nearest integer and clamped to `0..=255`.
pub open spec fn hdr_channel(channel: u8, gray: (int, int), saturation: (int, int), brightness: (
    int,
    int,
)) -> u8 {
    single_to_byte(
        single_mul(
            single_add(gray, single_mul(single_sub(byte_value(channel), gray), saturation)),
            brightness,
        ),
    )
}

#[verifier::opaque]
pub open spec fn spec_to_hdr_color(c: Rgba, role: ColorRole) -> Rgba {
    let (s, b) = hdr_factors(role);
    let gray = spec_gray(c);
    [hdr_channel(c[0], gray, s, b), hdr_channel(c[1], gray, s, b), hdr_channel(c[2], gray, s, b), c[3]]
}

fn hdr_factors_exec(role: ColorRole) -> (f: (Single, Single))
    ensures
        f.0@ == hdr_factors(role).0,
        f.1@ == hdr_factors(role).1,
        f.0.bounded(),
        f.1.bounded(),
        -23 <= f.0.exponent <= -2,
        -23 <= f.1.exponent <= -21,
{
    match role {
        ColorRole::Background => (
            Single { mantissa: 9395241, exponent: -23 },
            Single { mantissa: 2222981, exponent: -21 },
        ),
        ColorRole::Stem => (
            Single { mantissa: 5, exponent: -2 },
            Single { mantissa: 9059697, exponent: -23 },
        ),
        ColorRole::Flower => (
            Single { mantissa: 11744051, exponent: -23 },
            Single { mantissa: 9646899, exponent: -23 },
        ),
        ColorRole::Accent => (
            Single { mantissa: 5452595, exponent: -22 },
            Single { mantissa: 5117051, exponent: -22 },
        ),
    }
}

fn gray_exec(c: [u8; 4]) -> (gray: Single)
    ensures
        gray@ == spec_gray(c),
        gray.bounded(),
        -32 <= gray.exponent <= 7,
{
    let sum = Single::from_byte(c[0]).plus(Single::from_byte(c[1])).plus(Single::from_byte(c[2]));
    sum.third()
}

fn hdr_channel_exec(channel: u8, gray: Single, saturation: Single, brightness: Single) -> (out: u8)
    requires
        gray.bounded(),
        -32 <= gray.exponent <= 7,
        saturation.bounded(),
        -23 <= saturation.exponent <= -2,
        brightness.bounded(),
        -23 <= brightness.exponent <= -21,
    ensures
        out == hdr_channel(channel, gray@, saturation@, brightness@),
{
    let spread = Single::from_byte(channel).minus(gray);
    let saturated = spread.times(saturation);
    let moved = gray.plus(saturated);
    moved.times(brightness).to_byte()
}

/// Saturates and brightens a colour for HDR displays; alpha is kept.
pub fn to_hdr_color(c: [u8; 4], role: ColorRole) -> (out: [u8; 4])
    ensures
        out == spec_to_hdr_color(c, role),
{
    proof {
        reveal(spec_to_hdr_color);
    }
    let (s, b) = hdr_factors_exec(role);
    let gray = gray_exec(c);
    [
        hdr_channel_exec(c[0], gray, s, b),
        hdr_channel_exec(c[1], gray, s, b),
        hdr_channel_exec(c[2], gray, s, b),
        c[3],
    ]
}

// ---------------------------------------------------------------- night

/// Darkening and moonlight mix that night gives a non-background role: the
/// binary32 values nearest 0.62 and 0.10, 0.82 and 0.06, 0.86 and 0.05.
pub open spec fn night_factors(role: ColorRole) -> ((int, int), (int, int)) {
    match role {
        ColorRole::Stem => ((5200937, -23), (13421773, -27)),
        ColorRole::Flower => ((13757317, -24), (16106127, -28)),
        _ => ((7214203, -23), (13421773, -28)),
    }
}

/// The binary32 value nearest 0.08: the extra moonlight mixed into blue.
pub open spec fn moon_blue_extra() -> (int, int) {
    (5368709, -26)
}

/// The binary32 value nearest 0.20: how much of a background stays lit.
pub open spec fn lights_out() -> (int, int) {
    (13421773, -26)
}

/// `channel * scale`, rounded to the nearest integer and clamped.
pub open spec fn scale_channel(channel: u8, scale: (int, int)) -> u8 {
    single_to_byte(single_mul(byte_value(channel), scale))
}

/// The blend `a * (1 - t) + b * t`, rounded to the nearest integer and
/// clamped.
pub open spec fn spec_lerp_channel(a: u8, b: u8, t: (int, int)) -> u8 {
    single_to_byte(
        single_add(
            single_mul(byte_value(a), single_sub((1, 0), t)),
            single_mul(byte_value(b), t),
        ),
    )
}

fn scale_channel_exec(channel: u8, scale: Single) -> (out: u8)
    requires
        scale.bounded(),
        -26 <= scale.exponent <= -23,
    ensures
        out == scale_channel(channel, scale@),
{
    Single::from_byte(channel).times(scale).to_byte()
}

fn lerp_channel(a: u8, b: u8, t: Single) -> (out: u8)
    requires
        t.bounded(),
        -28 <= t.exponent <= -23,
    ensures
        out == spec_lerp_channel(a, b, t@),
{
    let one = Single { mantissa: 1, exponent: 0 };
    let rest = one.minus(t);
    let kept = Single::from_byte(a).times(rest);
    let mixed = Single::from_byte(b).times(t);
    kept.plus(mixed).to_byte()
}

/// Night background: each channel at a fifth of its brightness.
pub open spec fn spec_to_night_background_color(c: Rgba) -> Rgba {
    [
        scale_channel(c[0], lights_out()),
        scale_channel(c[1], lights_out()),
        scale_channel(c[2], lights_out()),
        c[3],
    ]
}

#[verifier::opaque]
pub open spec fn spec_to_night_color(c: Rgba, role: ColorRole) -> Rgba {
    if role == ColorRole::Background {
        spec_to_night_background_color(c)
    } else {
        let (dark, mix) = night_factors(role);
        [
            spec_lerp_channel(scale_channel(c[0], dark), 12, mix),
            spec_lerp_channel(scale_channel(c[1], dark), 14, mix),
            spec_lerp_channel(scale_channel(c[2], dark), 30, single_add(mix, moon_blue_extra())),
            c[3],
        ]
    }
}

pub fn to_night_background_color(c: [u8; 4]) -> (out: [u8; 4])
    ensures
        out == spec_to_night_background_color(c),
{
    let lights = Single { mantissa: 13421773, exponent: -26 };
    [
        scale_channel_exec(c[0], lights),
        scale_channel_exec(c[1], lights),
        scale_channel_exec(c[2], lights),
        c[3],
    ]
}

/// Darkens a colour and mixes it towards moonlight blue; alpha is kept.
pub fn to_night_color(c: [u8; 4], role: ColorRole) -> (out: [u8; 4])
    ensures
        out == spec_to_night_color(c, role),
{
    proof {
        reveal(spec_to_night_color);
    }
    let (dark, mix) = match role {
        ColorRole::Background => {
            return to_night_background_color(c);
        },
        ColorRole::Stem => (
            Single { mantissa: 5200937, exponent: -23 },
            Single { mantissa: 13421773, exponent: -27 },
        ),
        ColorRole::Flower => (
            Single { mantissa: 13757317, exponent: -24 },
            Single { mantissa: 16106127, exponent: -28 },
        ),
        ColorRole::Accent => (
            Single { mantissa: 7214203, exponent: -23 },
            Single { mantissa: 13421773, exponent: -28 },
        ),
    };
    let dr = scale_channel_exec(c[0], dark);
    let dg = scale_channel_exec(c[1], dark);
    let db = scale_channel_exec(c[2], dark);
    let blue_mix = mix.plus(Single { mantissa: 5368709, exponent: -26 });
    [lerp_channel(dr, 12, mix), lerp_channel(dg, 14, mix), lerp_channel(db, 30, blue_mix), c[3]]
}

// ---------------------------------------------------------------- sets

pub open spec fn spec_map_color_set(
    colors: FlowerColorSet,
    adjust: spec_fn(Rgba, ColorRole) -> Rgba,
) -> FlowerColorSet {
    FlowerColorSet {
        palette: [
            adjust(colors.palette[0], ColorRole::Flower),
            adjust(colors.palette[1], ColorRole::Flower),
            adjust(colors.palette[2], ColorRole::Flower),
        ],
        center_color: adjust(colors.center_color, ColorRole::Accent),
        stem_color: adjust(colors.stem_color, ColorRole::Stem),
        leaf_color: adjust(colors.leaf_color, ColorRole::Stem),
        background: adjust(colors.background, ColorRole::Background),
        center_highlight: adjust(colors.center_highlight, ColorRole::Accent),
    }
}

pub open spec fn spec_apply_night(colors: FlowerColorSet) -> FlowerColorSet {
    spec_map_color_set(colors, |c: Rgba, r: ColorRole| spec_to_night_color(c, r))
}

pub open spec fn spec_apply_hdr(colors: FlowerColorSet) -> FlowerColorSet {
    spec_map_color_set(colors, |c: Rgba, r: ColorRole| spec_to_hdr_color(c, r))
}

pub fn apply_night_to_color_set(colors: FlowerColorSet) -> (out: FlowerColorSet)
    ensures
        out == spec_apply_night(colors),
{
    FlowerColorSet {
        palette: [
            to_night_color(colors.palette[0], ColorRole::Flower),
            to_night_color(colors.palette[1], ColorRole::Flower),
            to_night_color(colors.palette[2], ColorRole::Flower),
        ],
        center_color: to_night_color(colors.center_color, ColorRole::Accent),
        stem_color: to_night_color(colors.stem_color, ColorRole::Stem),
        leaf_color: to_night_color(colors.leaf_color, ColorRole::Stem),
        background: to_night_color(colors.background, ColorRole::Background),
        center_highlight: to_night_color(colors.center_highlight, ColorRole::Accent),
    }
}

pub fn apply_hdr_to_color_set(colors: FlowerColorSet) -> (out: FlowerColorSet)
    ensures
        out == spec_apply_hdr(colors),
{
    FlowerColorSet {
        palette: [
            to_hdr_color(colors.palette[0], ColorRole::Flower),
            to_hdr_color(colors.palette[1], ColorRole::Flower),
            to_hdr_color(colors.palette[2], ColorRole::Flower),
        ],
        center_color: to_hdr_color(colors.center_color, ColorRole::Accent),
        stem_color: to_hdr_color(colors.stem_color, ColorRole::Stem),
        leaf_color: to_hdr_color(colors.leaf_color, ColorRole::Stem),
        background: to_hdr_color(colors.background, ColorRole::Background),
        center_highlight: to_hdr_color(colors.center_highlight, ColorRole::Accent),
    }
}

/// The day colours picked by five draws from a generator in `state`:
/// petal palette, centre, stem, leaf and background, in that order.
pub open spec fn spec_day_colors(state: u32) -> FlowerColorSet {
    let s1 = advance(state);
    let s2 = advance(s1);
    let s3 = advance(s2);
    let s4 = advance(s3);
    FlowerColorSet {
        palette: PETAL_PALETTES[index_from(state, 7)],
        center_color: CENTER_COLORS[index_from(s1, 4)],
        stem_color: STEM_COLORS[index_from(s2, 4)],
        leaf_color: STEM_COLORS[index_from(s3, 4)],
        background: BACKGROUNDS[index_from(s4, 6)],
        center_highlight: CENTER_HIGHLIGHT,
    }
}

/// The colours of a flower: the day colours, then the night adjustment where
/// asked, then the HDR adjustment where asked.
pub open spec fn spec_pick_colors(state: u32, night: bool, hdr: bool) -> FlowerColorSet {
    let day = spec_day_colors(state);
    let dusk = if night { spec_apply_night(day) } else { day };
    if hdr { spec_apply_hdr(dusk) } else { dusk }
}

/// The state after picking the colours: five draws.
pub open spec fn advance_n(state: u32, n: nat) -> u32
    decreases n,
{
    if n == 0 {
        state
    } else {
        advance(advance_n(state, (n - 1) as nat))
    }
}

pub fn pick_flower_colors(identity_rng: &mut SeededRandom, night: bool, hdr: bool) -> (colors:
    FlowerColorSet)
    ensures
        colors == spec_pick_colors(old(identity_rng).state(), night, hdr),
        final(identity_rng).state() == advance_n(old(identity_rng).state(), 5),
{
    let ghost s0 = identity_rng.state();
    let day_palette = PETAL_PALETTES[identity_rng.index(7)];
    let day_center = CENTER_COLORS[identity_rng.index(4)];
    let day_stem = STEM_COLORS[identity_rng.index(4)];
    let day_leaf = STEM_COLORS[identity_rng.index(4)];
    let day_background = BACKGROUNDS[identity_rng.index(6)];
    let mut colors = FlowerColorSet {
        palette: day_palette,
        center_color: day_center,
        stem_color: day_stem,
        leaf_color: day_leaf,
        background: day_background,
        center_highlight: CENTER_HIGHLIGHT,
    };
    assert(colors == spec_day_colors(s0));
    if night {
        colors = apply_night_to_color_set(colors);
    }
    if hdr {
        colors = apply_hdr_to_color_set(colors);
    }
    proof {
        reveal_with_fuel(advance_n, 6);
    }
    colors
}

} // verus!
