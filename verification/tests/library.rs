use riptar::avatar::{avatar_svg_for_url, riptar_request, split_path, str_chars};
use riptar::canvas::RgbaCanvas;
use riptar::decimal::push_decimal;
use riptar::dither::{floyd_steinberg_dither, DitherError, LumaImage};
use riptar::draw::transform_pixel;
use riptar::flower::{generate_flower_pixels, normalize_flower_size, normalize_flower_variant, FlowerStyle};
use riptar::grid::{PixelGrid, PixelPart};
use riptar::hdr_png::{decode_hdr_source, encode_hdr_png, mastering_display, write_chunk, PNG_SIGNATURE};
use riptar::palette::{
    to_hdr_color, to_night_color, ColorRole, BACKGROUNDS, CENTER_COLORS, CENTER_HIGHLIGHT,
    PETAL_PALETTES, STEM_COLORS,
};
use riptar::random::{hash_string, SeededRandom};
use riptar::routes::{avatar_query, dither_query, find_last_value, parse_u32};
use riptar::single::Single;
use riptar::render::{
    generate_flower_animation_frames, generate_flower_gif, generate_flower_image, generate_flower_png,
};
use riptar::{djb2, dither_from_bytes, render_svg, riptar_svg, try_riptar_bytes};

// ------------------------------------------------------------ hashing

#[test]
fn hash_string_of_empty_is_fnv_offset() {
    assert_eq!(hash_string(""), 2_166_136_261);
}

#[test]
fn hash_string_matches_fnv1a_of_utf16() {
    fn reference(s: &str) -> u32 {
        let mut h = 2_166_136_261u32;
        for unit in s.encode_utf16() {
            h ^= unit as u32;
            h = h.wrapping_mul(16_777_619);
        }
        h
    }
    for s in ["a", "user-1", "héllo", "😀 flowers", "user-1:variant:3"] {
        assert_eq!(hash_string(s), reference(s));
    }
    assert_eq!(hash_string("a"), 0xe40c_292c);
}

#[test]
fn djb2_values() {
    assert_eq!(djb2(""), 5381);
    assert_eq!(djb2("0"), 5381 * 33);
    assert_eq!(djb2("f"), 5381 * 33 + 15);
    assert_eq!(djb2("F"), 5381 * 33 + 15);
    assert_eq!(djb2("z"), 5381 * 33 + 1);
    // Long names wrap around in 32 bits.
    let expected = "gregermendle".chars().fold(5381u32, |h, c| {
        ((h << 5).wrapping_add(h)).wrapping_add(c.to_digit(16).unwrap_or(1))
    });
    assert_eq!(djb2("gregermendle"), expected);
}

// ------------------------------------------------------------ random

fn mulberry_reference(state: &mut u32) -> u32 {
    *state = state.wrapping_add(0x6d2b_79f5);
    let mut value = *state;
    value = (value ^ (value >> 15)).wrapping_mul(value | 1);
    value ^= value.wrapping_add((value ^ (value >> 7)).wrapping_mul(value | 61));
    value ^ (value >> 14)
}

#[test]
fn seeded_random_is_mulberry32_from_the_hash() {
    let mut rng = SeededRandom::new("user-1");
    let mut state = hash_string("user-1");
    for _ in 0..100 {
        assert_eq!(rng.next_u32(), mulberry_reference(&mut state));
    }
}

#[test]
fn chance_and_index_agree_with_floating_point() {
    for percent in [40u64, 45, 50, 55, 60, 65, 70, 72] {
        let mut rng = SeededRandom::new("chance");
        let mut state = hash_string("chance");
        for _ in 0..2000 {
            let v = mulberry_reference(&mut state);
            let expected = v as f64 / 4_294_967_296.0 > percent as f64 / 100.0;
            assert_eq!(rng.chance(percent), expected);
        }
    }
    for len in [2usize, 3, 4, 5, 6, 7] {
        let mut rng = SeededRandom::new("index");
        let mut state = hash_string("index");
        for _ in 0..2000 {
            let v = mulberry_reference(&mut state);
            let expected = (v as f64 / 4_294_967_296.0 * len as f64).floor() as usize;
            assert_eq!(rng.index(len), expected);
        }
    }
}

// ------------------------------------------------------------ options

#[test]
fn flower_size_is_clamped_and_rounded() {
    assert_eq!(normalize_flower_size(None), 32);
    assert_eq!(normalize_flower_size(Some(0)), 16);
    assert_eq!(normalize_flower_size(Some(23)), 16);
    assert_eq!(normalize_flower_size(Some(24)), 32);
    assert_eq!(normalize_flower_size(Some(64)), 64);
    assert_eq!(normalize_flower_size(Some(1000)), 256);
    assert_eq!(normalize_flower_variant(None), 0);
    assert_eq!(normalize_flower_variant(Some(7)), 2);
    assert_eq!(normalize_flower_variant(Some(u32::MAX)), (u32::MAX % 5) as u8);
}

// ------------------------------------------------------------ colours

fn f32_hdr(c: [u8; 4], saturation: f32, brightness: f32) -> [u8; 4] {
    let [r, g, b, a] = c;
    let rf = r as f32;
    let gf = g as f32;
    let bf = b as f32;
    let gray = (rf + gf + bf) / 3.0;
    let nr = (gray + (rf - gray) * saturation) * brightness;
    let ng = (gray + (gf - gray) * saturation) * brightness;
    let nb = (gray + (bf - gray) * saturation) * brightness;
    [
        nr.round().clamp(0.0, 255.0) as u8,
        ng.round().clamp(0.0, 255.0) as u8,
        nb.round().clamp(0.0, 255.0) as u8,
        a,
    ]
}

fn f32_lerp(a: u8, b: u8, t: f32) -> u8 {
    (a as f32 * (1.0 - t) + b as f32 * t).round().clamp(0.0, 255.0) as u8
}

fn f32_night(c: [u8; 4], role: ColorRole) -> [u8; 4] {
    let [r, g, b, a] = c;
    if role == ColorRole::Background {
        const LIGHTS_OUT: f32 = 0.20;
        return [
            (r as f32 * LIGHTS_OUT).round().clamp(0.0, 255.0) as u8,
            (g as f32 * LIGHTS_OUT).round().clamp(0.0, 255.0) as u8,
            (b as f32 * LIGHTS_OUT).round().clamp(0.0, 255.0) as u8,
            a,
        ];
    }
    let (dark_scale, moon_mix) = match role {
        ColorRole::Stem => (0.62f32, 0.10f32),
        ColorRole::Flower => (0.82, 0.06),
        _ => (0.86, 0.05),
    };
    let dr = (r as f32 * dark_scale).round() as u8;
    let dg = (g as f32 * dark_scale).round() as u8;
    let db = (b as f32 * dark_scale).round() as u8;
    [f32_lerp(dr, 12, moon_mix), f32_lerp(dg, 14, moon_mix), f32_lerp(db, 30, moon_mix + 0.08), a]
}

fn hdr_factors(role: ColorRole) -> (f32, f32) {
    match role {
        ColorRole::Background => (1.12, 1.06),
        ColorRole::Stem => (1.25, 1.08),
        ColorRole::Flower => (1.40, 1.15),
        ColorRole::Accent => (1.30, 1.22),
    }
}

fn palette_colors() -> Vec<([u8; 4], ColorRole)> {
    let mut all = Vec::new();
    for p in PETAL_PALETTES {
        for c in p {
            all.push((c, ColorRole::Flower));
        }
    }
    for c in CENTER_COLORS {
        all.push((c, ColorRole::Accent));
    }
    all.push((CENTER_HIGHLIGHT, ColorRole::Accent));
    for c in STEM_COLORS {
        all.push((c, ColorRole::Stem));
    }
    for c in BACKGROUNDS {
        all.push((c, ColorRole::Background));
    }
    all
}

#[test]
fn palette_adjustments_match_single_precision_arithmetic() {
    for (c, role) in palette_colors() {
        let (s, b) = hdr_factors(role);
        assert_eq!(to_night_color(c, role), f32_night(c, role));
        assert_eq!(to_hdr_color(c, role), f32_hdr(c, s, b));
        let n = to_night_color(c, role);
        assert_eq!(to_hdr_color(n, role), f32_hdr(n, s, b));
    }
}

#[test]
fn night_adjustment_matches_single_precision_for_every_byte() {
    for role in [ColorRole::Background, ColorRole::Stem, ColorRole::Flower, ColorRole::Accent] {
        for v in 0..=255u8 {
            let c = [v, v, v, 200];
            assert_eq!(to_night_color(c, role), f32_night(c, role));
        }
    }
}

#[test]
fn hdr_adjustment_matches_single_precision_on_a_grid() {
    for role in [ColorRole::Background, ColorRole::Stem, ColorRole::Flower, ColorRole::Accent] {
        let (s, b) = hdr_factors(role);
        for r in (0..=255u8).step_by(5) {
            for g in (0..=255u8).step_by(7) {
                for bl in (0..=255u8).step_by(11) {
                    let c = [r, g, bl, 255];
                    assert_eq!(to_hdr_color(c, role), f32_hdr(c, s, b));
                }
            }
        }
    }
}

fn single_as_f32(x: Single) -> f32 {
    x.mantissa as f32 * 2f32.powi(x.exponent as i32)
}

#[test]
fn single_operations_round_like_f32() {
    let values = [
        Single { mantissa: 9395241, exponent: -23 },
        Single { mantissa: 13421773, exponent: -27 },
        Single { mantissa: 5, exponent: -2 },
        Single { mantissa: 255, exponent: 0 },
        Single { mantissa: -7, exponent: 0 },
        Single { mantissa: 11184811, exponent: -17 },
        Single { mantissa: -16777215, exponent: -30 },
        Single { mantissa: 1, exponent: 0 },
    ];
    for x in values {
        for y in values {
            assert_eq!(single_as_f32(x.plus(y)), single_as_f32(x) + single_as_f32(y));
            assert_eq!(single_as_f32(x.minus(y)), single_as_f32(x) - single_as_f32(y));
            assert_eq!(single_as_f32(x.times(y)), single_as_f32(x) * single_as_f32(y));
        }
    }
    for m in 0..=765i64 {
        let x = Single { mantissa: m, exponent: 0 };
        assert_eq!(single_as_f32(x.third()), m as f32 / 3.0);
    }
}

#[test]
fn single_to_byte_rounds_half_away_and_clamps() {
    assert_eq!(Single { mantissa: 5, exponent: -1 }.to_byte(), 3);
    assert_eq!(Single { mantissa: 3, exponent: -1 }.to_byte(), 2);
    assert_eq!(Single { mantissa: -3, exponent: -1 }.to_byte(), 0);
    assert_eq!(Single { mantissa: 300, exponent: 0 }.to_byte(), 255);
    assert_eq!(Single { mantissa: 255, exponent: 1 }.to_byte(), 255);
    assert_eq!(Single { mantissa: 1001, exponent: -3 }.to_byte(), 125);
}

#[test]
fn night_blend_follows_single_precision_rounding() {
    // 14 darkens to 9; blending 9 towards 14 by 0.10 is 9.5 in decimals, but
    // in binary32 `9 * (1 - 0.1) + 14 * 0.1` falls just below 9.5.
    assert_eq!(to_night_color([14, 14, 14, 255], ColorRole::Stem), [9, 9, 13, 255]);
    assert_eq!(to_night_color([25, 25, 25, 255], ColorRole::Stem), [16, 16, 19, 255]);
}

#[test]
fn night_and_hdr_keep_alpha() {
    let c = [10, 200, 30, 77];
    for role in [ColorRole::Background, ColorRole::Stem, ColorRole::Flower, ColorRole::Accent] {
        assert_eq!(to_night_color(c, role)[3], 77);
        assert_eq!(to_hdr_color(c, role)[3], 77);
    }
    assert_eq!(to_night_color([255, 255, 255, 255], ColorRole::Background), [51, 51, 51, 255]);
}

// ------------------------------------------------------------ grid and drawing

#[test]
fn transform_pixel_matches_floating_point() {
    fn round_js(v: f64) -> i32 {
        (v + 0.5).floor() as i32
    }
    fn reference(x: i32, y: i32, part: PixelPart, sway: i32, include_stem: bool) -> (i32, i32) {
        if !include_stem {
            return (x + round_js(sway as f64 * 0.35), y);
        }
        let fx = sway;
        let fy = if sway.abs() == 2 { 1 } else { 0 };
        match part {
            PixelPart::Flower => (x + fx, y + fy),
            PixelPart::Stem => {
                let progress = ((15 - y) as f64 / 6.0).clamp(0.0, 1.0);
                (x + round_js(fx as f64 * progress), y + round_js(fy as f64 * progress))
            }
            PixelPart::Base => (x, y),
        }
    }
    for x in 0..16 {
        for y in 0..16 {
            for sway in -2..=2 {
                for part in [PixelPart::Flower, PixelPart::Stem, PixelPart::Base] {
                    for stem in [false, true] {
                        assert_eq!(transform_pixel(x, y, part, sway, stem), reference(x, y, part, sway, stem));
                    }
                }
            }
        }
    }
}

#[test]
fn grid_ignores_positions_off_the_grid() {
    let mut grid = PixelGrid::new();
    grid.add(-1, 3, [1, 2, 3, 4]);
    grid.add(16, 3, [1, 2, 3, 4]);
    grid.add(3, 16, [1, 2, 3, 4]);
    assert!(grid.is_empty());
    grid.add_mirrored(8, 8, 2, 1, [9, 9, 9, 9]);
    assert_eq!(grid.get(9 * 16 + 10).map(|p| p.color), Some([9, 9, 9, 9]));
    assert_eq!(grid.get(9 * 16 + 6).map(|p| p.color), Some([9, 9, 9, 9]));
}

#[test]
fn recenter_centres_the_bounding_box() {
    let mut grid = PixelGrid::new();
    grid.add(0, 0, [1, 0, 0, 255]);
    grid.add(2, 1, [2, 0, 0, 255]);
    grid.recenter();
    // Columns 0..=2 move by 8 - ceil(2 / 2) = 7; rows 0..=1 by 8 - ceil(1 / 2) = 7.
    assert_eq!(grid.get(7 * 16 + 7).map(|p| p.color), Some([1, 0, 0, 255]));
    assert_eq!(grid.get(8 * 16 + 9).map(|p| p.color), Some([2, 0, 0, 255]));
    assert_eq!(grid.get(0), None);
}

#[test]
fn recenter_moves_every_pixel_and_settles() {
    let mut grid = PixelGrid::new();
    grid.add(15, 15, [1, 0, 0, 255]);
    grid.add(12, 14, [2, 0, 0, 255]);
    grid.add(15, 12, [3, 0, 0, 255]);
    grid.recenter();
    // Columns 12..=15 move by 8 - 14 = -6, rows 12..=15 likewise; nothing is lost.
    assert_eq!(grid.get(9 * 16 + 9).map(|p| p.color), Some([1, 0, 0, 255]));
    assert_eq!(grid.get(8 * 16 + 6).map(|p| p.color), Some([2, 0, 0, 255]));
    assert_eq!(grid.get(6 * 16 + 9).map(|p| p.color), Some([3, 0, 0, 255]));
    assert_eq!((0..256).filter(|&i| grid.get(i).is_some()).count(), 3);
    let before: Vec<_> = (0..256).map(|i| grid.get(i)).collect();
    grid.recenter();
    let after: Vec<_> = (0..256).map(|i| grid.get(i)).collect();
    assert_eq!(before, after);
}

#[test]
fn night_and_hdr_keep_the_shape() {
    for style in [FlowerStyle::FlowerOnly, FlowerStyle::FlowerWithStem] {
        let day = generate_flower_pixels("shape", style, Some(2), false, false);
        for (night, hdr) in [(true, false), (false, true), (true, true)] {
            let other = generate_flower_pixels("shape", style, Some(2), night, hdr);
            for i in 0..256 {
                assert_eq!(day.pixels.get(i).map(|p| p.part), other.pixels.get(i).map(|p| p.part));
            }
        }
    }
}

#[test]
fn stemless_frames_shift_whole_blocks() {
    let frames = generate_flower_animation_frames("frames", FlowerStyle::FlowerOnly, Some(32), None, false, false, false);
    let still = &frames[2].image;
    assert_eq!(frames[1].image, *still);
    assert_eq!(frames[3].image, *still);
    for y in 0..32 {
        for x in 0..30 {
            assert_eq!(frames[4].image.get_pixel(x + 2, y), still.get_pixel(x, y));
            assert_eq!(frames[0].image.get_pixel(x, y), still.get_pixel(x + 2, y));
        }
    }
}

#[test]
fn still_picture_shows_the_cells() {
    let generated = generate_flower_image("cells", FlowerStyle::FlowerWithStem, Some(48), Some(3), false, true, false);
    let cells = generate_flower_pixels("cells", FlowerStyle::FlowerWithStem, Some(3), false, false);
    for y in 0..48u32 {
        for x in 0..48u32 {
            let expected = match cells.pixels.get(((y / 3) * 16 + x / 3) as usize) {
                Some(p) => p.color,
                None => [0, 0, 0, 0],
            };
            assert_eq!(generated.image.get_pixel(x, y), expected);
        }
    }
}

#[test]
fn encoded_files_carry_their_size() {
    let png = generate_flower_png("size", FlowerStyle::FlowerOnly, Some(48), None, false, false, false).unwrap();
    assert_eq!(&png[8..16], &[0, 0, 0, 13, b'I', b'H', b'D', b'R']);
    assert_eq!(&png[16..29], &[0, 0, 0, 48, 0, 0, 0, 48, 8, 6, 0, 0, 0]);
    let avatar = try_riptar_bytes("https://riptar.example/riptar/bob?format=png").unwrap();
    assert_eq!(&avatar[16..29], &[0, 0, 0, 128, 0, 0, 0, 128, 8, 6, 0, 0, 0]);
    let dithered = dither_from_bytes(&png, None, None).unwrap();
    assert_eq!(&dithered[16..29], &[0, 0, 0, 48, 0, 0, 0, 48, 8, 0, 0, 0, 0]);
    let gif = generate_flower_gif("size", FlowerStyle::FlowerOnly, Some(16), None, None, false, false, false).unwrap();
    assert_eq!(&gif[..6], b"GIF89a");
}

#[test]
fn flower_pixels_are_stable_for_a_seed() {
    let a = generate_flower_pixels("seed", FlowerStyle::FlowerWithStem, Some(1), false, false);
    let b = generate_flower_pixels("seed", FlowerStyle::FlowerWithStem, Some(6), false, false);
    for i in 0..256 {
        assert_eq!(a.pixels.get(i), b.pixels.get(i));
    }
    // A flower with a stem has a base on the bottom row.
    assert!((0..16).any(|x| a.pixels.get(15 * 16 + x).map(|p| p.part) == Some(PixelPart::Base)));
}

#[test]
fn flower_image_blocks_follow_the_grid() {
    let generated = generate_flower_image("blocks", FlowerStyle::FlowerOnly, Some(64), None, false, false, false);
    let image: &RgbaCanvas = &generated.image;
    for y in 0..64 {
        for x in 0..64 {
            let top_left = image.get_pixel(x / 4 * 4, y / 4 * 4);
            assert_eq!(image.get_pixel(x, y), top_left);
        }
    }
}

#[test]
fn gif_is_a_gif() {
    let gif = generate_flower_gif("user-1", FlowerStyle::FlowerWithStem, None, Some(2), None, false, false, false)
        .unwrap();
    assert_eq!(&gif[..6], b"GIF89a");
}

// ------------------------------------------------------------ avatars

fn formatted_svg(size: u32, hash: u32, is_color: bool) -> String {
    let l = hash % 360;
    let mut color = "#111111ff".to_string();
    if is_color {
        color = format!("hsl({l}, 35%, 30%)");
    }
    format!(
        "<svg
        xmlns=\"http://www.w3.org/2000/svg\"
        version=\"1.1\"
        viewBox=\"0 0 48 48\"
        width=\"{size}\"
        height=\"{size}\"
    >
        <defs>
        <filter
            id=\"nnnoise-filter\"
            x=\"0%\"
            y=\"0%\"
            width=\"100%\"
            height=\"100%\"
            filterUnits=\"objectBoundingBox\"
            primitiveUnits=\"userSpaceOnUse\"
            colorInterpolationFilters=\"linearRGB\"
        >
            <feTurbulence
                type=\"fractalNoise\"
                baseFrequency=\"0.05\"
                numOctaves=\"2\"
                seed=\"{hash}\"
                stitchTiles=\"stitch\"
                x=\"0%\"
                y=\"0%\"
                width=\"100%\"
                height=\"100%\"
                result=\"turbulence\"
                ></feTurbulence>
                <feSpecularLighting
                surfaceScale=\"15\"
                specularConstant=\"0.75\"
                specularExponent=\"20\"
                lightingColor=\"#fff\"
                x=\"0%\"
                y=\"0%\"
                width=\"100%\"
                height=\"100%\"
                in=\"turbulence\"
                result=\"specularLighting\"
            >
            <feDistantLight azimuth=\"3\" elevation=\"100\"></feDistantLight>
            </feSpecularLighting>
        </filter>
        </defs>
        <rect width=\"48\" height=\"48\" fill=\"{color}\"></rect>
        <rect
            width=\"48\"
            height=\"48\"
            fill=\"#ffffff\"
            filter=\"url(#nnnoise-filter)\"
        ></rect>
    </svg>"
    )
}

#[test]
fn riptar_svg_text() {
    for (size, hash, color) in [(128, 0, false), (48, 12345, true), (1, u32::MAX, true), (0, 359, true)] {
        assert_eq!(riptar_svg(size, hash, color), formatted_svg(size, hash, color));
    }
    assert!(riptar_svg(128, 725, true).contains("hsl(5, 35%, 30%)"));
}

#[test]
fn decimal_text() {
    for n in [0u32, 7, 10, 99, 100, 4_294_967_295] {
        let mut s = String::from("x");
        push_decimal(&mut s, n);
        assert_eq!(s, format!("x{n}"));
    }
}

#[test]
fn avatar_renders_to_png() {
    let svg = riptar_svg(128, djb2("riptar"), true);
    let png = render_svg(&svg, 128).unwrap();
    assert_eq!(&png[..8], &PNG_SIGNATURE);
    assert!(render_svg(&svg, 0).is_none());
    assert!(render_svg(&svg, 0x2000_0000).is_none());
    assert!(render_svg(&svg, 1).is_some());
    assert!(render_svg("not svg", 16).is_none());
}

fn url_parts(text: &str) -> (String, Vec<(String, String)>) {
    let url = url::Url::parse(text).unwrap();
    let pairs = url.query_pairs().map(|(k, v)| (k.into_owned(), v.into_owned())).collect();
    (url.path().to_string(), pairs)
}

#[test]
fn avatar_urls() {
    let (path, pairs) = url_parts("https://riptar.example/riptar/bob?format=png&color=on&format=svg");
    assert_eq!(path, "/riptar/bob");
    assert_eq!(riptar_request(&path, &pairs), Some((djb2("bob"), true)));
    let (path, pairs) = url_parts("https://riptar.example//riptar//?color=off&format=png");
    assert_eq!(riptar_request(&path, &pairs), Some((djb2("riptar"), false)));
    let (path, pairs) = url_parts("https://riptar.example/riptar/bob");
    assert_eq!(riptar_request(&path, &pairs), None);
    let (path, pairs) = url_parts("https://riptar.example/other/bob?format=png");
    assert_eq!(riptar_request(&path, &pairs), None);
    let (path, pairs) = url_parts("https://riptar.example/riptar/a/b?format=png");
    assert_eq!(riptar_request(&path, &pairs), None);
    assert!(try_riptar_bytes("not a url").is_none());
    assert_eq!(split_path("//a///bc/"), vec![vec!['a'], vec!['b', 'c']]);
    assert_eq!(str_chars("hé"), vec!['h', 'é']);

    let png = try_riptar_bytes("https://riptar.example/riptar/bob?format=png").unwrap();
    assert_eq!(&png[..8], &PNG_SIGNATURE);
    assert!(try_riptar_bytes("https://riptar.example/riptar/bob?format=svg").is_none());
}

// ------------------------------------------------------------ dithering

#[test]
fn dithering_is_black_and_white() {
    let mut img = LumaImage { width: 3, height: 2, pixels: vec![100, 200, 127, 128, 0, 255] };
    floyd_steinberg_dither(&mut img);
    assert!(img.pixels.iter().all(|&p| p == 0 || p == 255));
    // First pixel: 100 -> 0, error 100; right neighbour 200 + 43 = 243 -> 255.
    assert_eq!(img.pixels[0], 0);
    assert_eq!(img.pixels[1], 255);
}

#[test]
fn dithering_follows_error_diffusion() {
    let mut img = LumaImage { width: 2, height: 2, pixels: vec![100, 10, 20, 30] };
    floyd_steinberg_dither(&mut img);
    // (0,0): 100 -> 0, error 100: right 10 + 43 = 53, below 20 + 31 = 51, below right 30 + 6 = 36.
    // (1,0): 53 -> 0, error 53: lower left 51 + 9 = 60, below 36 + 16 = 52.
    // (0,1): 60 -> 0, error 60: right 52 + 26 = 78. (1,1): 78 -> 0.
    assert_eq!(img.pixels, vec![0, 0, 0, 0]);
    let mut img = LumaImage { width: 1, height: 2, pixels: vec![200, 200] };
    floyd_steinberg_dither(&mut img);
    // 200 -> 255, error -55: below 200 - 17 = 183 -> 255.
    assert_eq!(img.pixels, vec![255, 255]);
}

#[test]
fn dither_errors() {
    assert_eq!(dither_from_bytes(b"not an image", None, None), Err(DitherError::Decode));
    let png = riptar::render::generate_flower_png("d", FlowerStyle::FlowerOnly, None, None, false, false, false)
        .unwrap();
    let out = dither_from_bytes(&png, Some(16), Some(16)).unwrap();
    assert_eq!(&out[..8], &PNG_SIGNATURE);
    let decoded = image::load_from_memory(&out).unwrap().to_luma8();
    assert_eq!(decoded.dimensions(), (16, 16));
    assert!(decoded.pixels().all(|p| p[0] == 0 || p[0] == 255));
}

#[test]
fn hdr_source_is_decoded_as_rgba_and_resized_only_with_both_sides() {
    let img: image::RgbaImage = image::ImageBuffer::from_pixel(2, 2, image::Rgba([200, 120, 80, 255]));
    let mut buf = std::io::Cursor::new(Vec::new());
    img.write_to(&mut buf, image::ImageFormat::Png).unwrap();
    let png = buf.into_inner();

    let canvas = decode_hdr_source(&png, None, None).unwrap();
    assert_eq!(canvas.dimensions(), (2, 2));
    assert_eq!(canvas.get_pixel(1, 1), [200, 120, 80, 255]);

    assert_eq!(decode_hdr_source(&png, Some(4), None).unwrap().dimensions(), (2, 2));
    let bigger = decode_hdr_source(&png, Some(4), Some(4)).unwrap();
    assert_eq!(bigger.dimensions(), (4, 4));
    assert_eq!(bigger.get_pixel(3, 0), [200, 120, 80, 255]);

    assert!(decode_hdr_source(b"not an image", None, None).is_err());
}

#[test]
fn canvas_from_rgba_bytes_reads_pixels_in_rows() {
    let raw = [1, 2, 3, 4, 5, 6, 7, 8, 9, 10, 11, 12];
    let canvas = RgbaCanvas::from_rgba_bytes(3, 1, &raw);
    assert_eq!(canvas.pixels(), &[[1, 2, 3, 4], [5, 6, 7, 8], [9, 10, 11, 12]]);
    assert_eq!(canvas.to_rgba_bytes(), raw.to_vec());
    assert_eq!((canvas.width_of(), canvas.height_of()), (3, 1));
    assert_eq!(canvas.pixel_by_index(2), [9, 10, 11, 12]);
}

#[test]
fn avatar_svg_for_url_reads_name_format_and_color() {
    assert_eq!(
        avatar_svg_for_url("https://riptar.example/riptar/bob?format=png&color=on"),
        Some(riptar_svg(128, djb2("bob"), true))
    );
    assert_eq!(
        avatar_svg_for_url("https://riptar.example/riptar?format=png"),
        Some(riptar_svg(128, djb2("riptar"), false))
    );
    assert_eq!(avatar_svg_for_url("https://riptar.example/riptar/bob?format=svg"), None);
    assert_eq!(avatar_svg_for_url("https://riptar.example/other/bob?format=png"), None);
    assert_eq!(avatar_svg_for_url("not a url"), None);
}

// ------------------------------------------------------------ routes

fn pairs(list: &[(&str, &str)]) -> Vec<(String, String)> {
    list.iter().map(|(k, v)| (k.to_string(), v.to_string())).collect()
}

#[test]
fn parse_u32_agrees_with_std() {
    let cases = [
        "", "0", "7", "+7", "-7", "+", "-", "++1", "007", "12a", " 12", "12 ", "4294967295",
        "4294967296", "99999999999999999999", "+4294967295", "٣", "1_000", "48",
    ];
    for c in cases {
        assert_eq!(parse_u32(c), c.parse::<u32>().ok(), "{c:?}");
    }
    for n in (0..=u32::MAX).step_by(65_537) {
        assert_eq!(parse_u32(&n.to_string()), Some(n));
    }
}

#[test]
fn query_lookup_keeps_the_last_value() {
    let p = pairs(&[("url", "a"), ("width", "10"), ("url", "b"), ("width", "x")]);
    assert_eq!(find_last_value(&p, "url"), Some("b".to_string()));
    assert_eq!(find_last_value(&p, "height"), None);
    let q = dither_query(&p);
    assert_eq!(q.url, Some("b".to_string()));
    assert_eq!(q.width, None);
    assert_eq!(q.height, None);
    let q = dither_query(&pairs(&[("url", "u"), ("width", "48"), ("height", "+32")]));
    assert_eq!((q.url.as_deref(), q.width, q.height), (Some("u"), Some(48), Some(32)));
    assert!(dither_query(&pairs(&[])).url.is_none());
}

#[test]
fn avatar_query_reads_format_and_color() {
    assert_eq!(avatar_query(&pairs(&[("format", "png"), ("color", "on")])), (true, true));
    assert_eq!(avatar_query(&pairs(&[("format", "png"), ("format", "svg")])), (false, false));
    assert_eq!(avatar_query(&pairs(&[("color", "off"), ("color", "on")])), (false, true));
    assert_eq!(avatar_query(&pairs(&[("format", "PNG")])), (false, false));
}

// ------------------------------------------------------------ PNG chunks

#[test]
fn iend_chunk_has_its_known_crc() {
    let mut out = Vec::new();
    write_chunk(&mut out, b"IEND", &[]);
    assert_eq!(out, vec![0, 0, 0, 0, b'I', b'E', b'N', b'D', 0xAE, 0x42, 0x60, 0x82]);
}

#[test]
fn mastering_display_bytes() {
    let d = mastering_display();
    assert_eq!(&d[0..2], &13250u16.to_be_bytes());
    assert_eq!(&d[2..4], &34500u16.to_be_bytes());
    assert_eq!(&d[14..16], &16450u16.to_be_bytes());
    assert_eq!(&d[16..20], &10_000_000u32.to_be_bytes());
    assert_eq!(&d[20..24], &1u32.to_be_bytes());
}

#[test]
fn hdr_png_layout() {
    let samples: Vec<u16> = vec![0, 1, 2, 0x1234, 0xffff, 7];
    let png = encode_hdr_png(2, 1, &samples, 10_000_000, 3_500_000);
    assert_eq!(&png[..8], &PNG_SIGNATURE);
    assert_eq!(&png[8..16], &[0, 0, 0, 13, b'I', b'H', b'D', b'R']);
    assert_eq!(&png[16..29], &[0, 0, 0, 2, 0, 0, 0, 1, 16, 2, 0, 0, 0]);
    assert!(png.windows(4).any(|w| w == b"cICP"));
    assert!(png.windows(4).any(|w| w == b"mDCV"));
    let clli = png.windows(4).position(|w| w == b"cLLI").unwrap();
    assert_eq!(&png[clli + 4..clli + 12], &[0, 0x98, 0x96, 0x80, 0, 0x35, 0x67, 0xe0]);
    // The IDAT payload inflates to the filter byte and big-endian samples.
    let idat = png.windows(4).position(|w| w == b"IDAT").unwrap();
    let len = u32::from_be_bytes([png[idat - 4], png[idat - 3], png[idat - 2], png[idat - 1]]) as usize;
    let compressed = &png[idat + 4..idat + 4 + len];
    let raw = [0u8, 0, 0, 0, 1, 0, 2, 0x12, 0x34, 0xff, 0xff, 0, 7];
    assert_ne!(compressed, &raw[..]);
    let mut inflated = Vec::new();
    std::io::Read::read_to_end(&mut flate2::read::ZlibDecoder::new(compressed), &mut inflated).unwrap();
    assert_eq!(inflated, raw.to_vec());
    let decoded = image::load_from_memory(&png).unwrap().to_rgb16();
    assert_eq!(decoded.get_pixel(0, 0).0, [0, 1, 2]);
    assert_eq!(decoded.get_pixel(1, 0).0, [0x1234, 0xffff, 7]);
}

