//! Flower pictures: still images, animation frames, PNG and GIF files.

use vstd::prelude::*;
use crate::canvas::{lemma_rgba_bytes_len, rgba_bytes, RgbaCanvas};
use crate::codec::{
    encoded_rgba8_gif, encoded_rgba8_png, gif_encode_rgba8, png_encode_rgba8, png_header, png_rgba,
};
use crate::draw::{draw_pixels, spec_draw};
use crate::flower::{
    generate_flower_pixels, normalize_flower_size, spec_flower_background, spec_flower_cells,
    spec_normalize_flower_size, FlowerStyle,
};
use crate::palette::{canvas_pixel, spec_canvas_pixel};

verus! {

/// The number of frames of an animation.
pub const FLOWER_ANIMATION_FRAME_COUNT: usize = 8;

/// The delay between animation frames when none is given, in milliseconds.
pub const DEFAULT_FRAME_DELAY_MS: u32 = 250;

/// How far each animation frame sways, in logical pixels.
pub const SWAY_FRAMES: [i32; 8] = [-2, -1, 0, 1, 2, 1, 0, -1];

/// The `image` crate failed to encode a picture.
#[derive(Debug, Clone, Copy, PartialEq, Eq)]
pub struct ImageEncodingError;

/// A drawn flower and the background colour it was drawn on.
#[derive(Debug)]
pub struct GeneratedFlower {
    pub image: RgbaCanvas,
    pub background: [u8; 4],
}

/// The pixels of a flower picture swaying by `sway`: a square of the
/// normalized size filled with the background (or transparency), with the
/// logical pixels drawn as blocks of size / 16.
#[verifier::opaque]
pub open spec fn spec_flower_image(
    seed: Seq<char>,
    style: FlowerStyle,
    size: Option<u32>,
    variant: Option<u32>,
    night: bool,
    transparent: bool,
    hdr: bool,
    sway: int,
) -> Seq<[u8; 4]> {
    let n = spec_normalize_flower_size(size);
    let fill = spec_canvas_pixel(spec_flower_background(seed, night, hdr), transparent);
    spec_draw(
        Seq::new((n * n) as nat, |i: int| fill),
        n as int,
        spec_flower_cells(seed, style, variant, night, hdr),
        (n / 16) as int,
        sway,
        style == FlowerStyle::FlowerWithStem,
    )
}

/// A flower picture is its cells drawn on a canvas of the normalized size,
/// filled with the background or with transparency.
pub proof fn lemma_flower_picture_is_drawn(
    generated: GeneratedFlower,
    seed: Seq<char>,
    style: FlowerStyle,
    size: Option<u32>,
    variant: Option<u32>,
    night: bool,
    transparent: bool,
    hdr: bool,
    sway: int,
)
    requires
        is_flower_picture(generated, seed, style, size, variant, night, transparent, hdr, sway),
    ensures
        ({
            let n = generated.image.width() as int;
            let fill = spec_canvas_pixel(generated.background, transparent);
            &&& n >= 16
            &&& n % 16 == 0
            &&& generated.image.height() == n
            &&& generated.image.pixel_seq() == spec_draw(
                Seq::new((n * n) as nat, |i: int| fill),
                n,
                spec_flower_cells(seed, style, variant, night, hdr),
                n / 16,
                sway,
                style == FlowerStyle::FlowerWithStem,
            )
        }),
{
    reveal(spec_flower_image);
}

/// A flower picture depends on the variant only through the flower's cells.
pub proof fn lemma_image_follows_cells(
    seed: Seq<char>,
    style: FlowerStyle,
    size: Option<u32>,
    v1: Option<u32>,
    v2: Option<u32>,
    night: bool,
    transparent: bool,
    hdr: bool,
    sway: int,
)
    requires
        spec_flower_cells(seed, style, v1, night, hdr) == spec_flower_cells(seed, style, v2, night, hdr),
    ensures
        spec_flower_image(seed, style, size, v1, night, transparent, hdr, sway) == spec_flower_image(
            seed,
            style,
            size,
            v2,
            night,
            transparent,
            hdr,
            sway,
        ),
{
    reveal(spec_flower_image);
}

/// What a generated flower is, for a frame swaying by `sway`.
pub open spec fn is_flower_picture(
    generated: GeneratedFlower,
    seed: Seq<char>,
    style: FlowerStyle,
    size: Option<u32>,
    variant: Option<u32>,
    night: bool,
    transparent: bool,
    hdr: bool,
    sway: int,
) -> bool {
    let n = spec_normalize_flower_size(size);
    &&& generated.image.wf()
    &&& generated.image.width() == n
    &&& generated.image.height() == n
    &&& generated.image.pixel_seq() == spec_flower_image(
        seed,
        style,
        size,
        variant,
        night,
        transparent,
        hdr,
        sway,
    )
    &&& generated.background == spec_flower_background(seed, night, hdr)
}

fn draw_flower(
    pixels: &crate::grid::PixelGrid,
    background: [u8; 4],
    output_size: u32,
    include_stem: bool,
    transparent: bool,
    sway: i32,
) -> (image: RgbaCanvas)
    requires
        pixels.wf(),
        16 <= output_size <= 256,
        -2 <= sway <= 2,
    ensures
        image.wf(),
        image.width() == output_size,
        image.height() == output_size,
        image.pixel_seq() == spec_draw(
            Seq::new(
                (output_size * output_size) as nat,
                |i: int| spec_canvas_pixel(background, transparent),
            ),
            output_size as int,
            pixels@,
            (output_size / 16) as int,
            sway as int,
            include_stem,
        ),
{
    assert(output_size as int * output_size as int <= 65536) by (nonlinear_arith)
        requires
            output_size <= 256,
    ;
    let mut image = RgbaCanvas::from_pixel(
        output_size,
        output_size,
        canvas_pixel(background, transparent),
    );
    draw_pixels(&mut image, pixels, output_size / 16, sway, include_stem);
    image
}

/// Draws a flower picture.
pub fn generate_flower_image(
    seed: &str,
    style: FlowerStyle,
    size: Option<u32>,
    variant: Option<u32>,
    night: bool,
    transparent: bool,
    hdr: bool,
) -> (generated: GeneratedFlower)
    ensures
        is_flower_picture(generated, seed@, style, size, variant, night, transparent, hdr, 0),
{
    let output_size = normalize_flower_size(size);
    let include_stem = style == FlowerStyle::FlowerWithStem;
    let generated = generate_flower_pixels(seed, style, variant, night, hdr);
    let image = draw_flower(
        &generated.pixels,
        generated.background,
        output_size,
        include_stem,
        transparent,
        0,
    );
    proof {
        reveal(spec_flower_image);
    }
    GeneratedFlower { image, background: generated.background }
}

/// Encodes an image as an 8-bit RGBA PNG file.
pub fn encode_png(image: &RgbaCanvas) -> (r: Result<Vec<u8>, ImageEncodingError>)
    requires
        image.wf(),
    ensures
        match r {
            Ok(bytes) => {
                &&& encoded_rgba8_png(rgba_bytes(image.pixel_seq()), image.width(), image.height())
                    == Some(bytes@)
                &&& image.width() > 0 && image.height() > 0
                &&& bytes@.len() >= 29
                &&& bytes@.take(29) == png_header(image.width(), image.height(), png_rgba())
            },
            Err(_) => {
                &&& encoded_rgba8_png(
                    rgba_bytes(image.pixel_seq()),
                    image.width(),
                    image.height(),
                ) is None
                &&& image.width() == 0 || image.height() == 0
            },
        },
{
    let raw = image.to_rgba_bytes();
    let (width, height) = image.dimensions();
    proof {
        lemma_rgba_bytes_len(image.pixel_seq());
    }
    match png_encode_rgba8(raw.as_slice(), width, height) {
        Ok(bytes) => Ok(bytes),
        Err(_) => Err(ImageEncodingError),
    }
}

/// The PNG file of a flower picture, as `image` encodes it.
pub open spec fn spec_flower_png(
    seed: Seq<char>,
    style: FlowerStyle,
    size: Option<u32>,
    variant: Option<u32>,
    night: bool,
    transparent: bool,
    hdr: bool,
) -> Option<Seq<u8>> {
    let n = spec_normalize_flower_size(size);
    encoded_rgba8_png(
        rgba_bytes(spec_flower_image(seed, style, size, variant, night, transparent, hdr, 0)),
        n,
        n,
    )
}

/// Draws a flower picture and encodes it as PNG: an RGBA image of the
/// normalized size, which always encodes.
pub fn generate_flower_png(
    seed: &str,
    style: FlowerStyle,
    size: Option<u32>,
    variant: Option<u32>,
    night: bool,
    transparent: bool,
    hdr: bool,
) -> (r: Result<Vec<u8>, ImageEncodingError>)
    ensures
        match r {
            Ok(bytes) => spec_flower_png(seed@, style, size, variant, night, transparent, hdr)
                == Some(bytes@),
            Err(_) => spec_flower_png(seed@, style, size, variant, night, transparent, hdr) is None,
        },
        r matches Ok(bytes) && bytes@.len() >= 29 && bytes@.take(29) == png_header(
            spec_normalize_flower_size(size),
            spec_normalize_flower_size(size),
            png_rgba(),
        ),
{
    let generated = generate_flower_image(seed, style, size, variant, night, transparent, hdr);
    encode_png(&generated.image)
}

/// Draws the frames of a swaying animation, one for each entry of
/// `SWAY_FRAMES`.
pub fn generate_flower_animation_frames(
    seed: &str,
    style: FlowerStyle,
    size: Option<u32>,
    variant: Option<u32>,
    night: bool,
    transparent: bool,
    hdr: bool,
) -> (frames: Vec<GeneratedFlower>)
    ensures
        frames@.len() == FLOWER_ANIMATION_FRAME_COUNT,
        forall|k: int|
            0 <= k < frames@.len() ==> is_flower_picture(
                #[trigger] frames@[k],
                seed@,
                style,
                size,
                variant,
                night,
                transparent,
                hdr,
                SWAY_FRAMES[k] as int,
            ),
{
    let output_size = normalize_flower_size(size);
    let include_stem = style == FlowerStyle::FlowerWithStem;
    let generated = generate_flower_pixels(seed, style, variant, night, hdr);
    let mut frames: Vec<GeneratedFlower> = Vec::new();
    for k in 0..FLOWER_ANIMATION_FRAME_COUNT
        invariant
            generated.pixels.wf(),
            generated.pixels@ == spec_flower_cells(seed@, style, variant, night, hdr),
            generated.background == spec_flower_background(seed@, night, hdr),
            output_size == spec_normalize_flower_size(size),
            16 <= output_size <= 256,
            include_stem == (style == FlowerStyle::FlowerWithStem),
            frames@.len() == k,
            forall|j: int|
                0 <= j < k ==> is_flower_picture(
                    #[trigger] frames@[j],
                    seed@,
                    style,
                    size,
                    variant,
                    night,
                    transparent,
                    hdr,
                    SWAY_FRAMES[j] as int,
                ),
    {
        let sway = SWAY_FRAMES[k];
        let image = draw_flower(
            &generated.pixels,
            generated.background,
            output_size,
            include_stem,
            transparent,
            sway,
        );
        proof {
            reveal(spec_flower_image);
        }
        frames.push(GeneratedFlower { image, background: generated.background });
    }
    frames
}

/// The frame delay: the given one or 250 ms, at least 20 ms.
pub open spec fn spec_frame_delay(frame_delay_ms: Option<u32>) -> u32 {
    let d = match frame_delay_ms {
        Some(d) => d,
        None => 250,
    };
    if d < 20 {
        20
    } else {
        d
    }
}

/// The GIF file of a swaying flower, as `image` encodes it.
pub open spec fn spec_flower_gif(
    seed: Seq<char>,
    style: FlowerStyle,
    size: Option<u32>,
    variant: Option<u32>,
    frame_delay_ms: Option<u32>,
    night: bool,
    transparent: bool,
    hdr: bool,
) -> Option<Seq<u8>> {
    let n = spec_normalize_flower_size(size);
    encoded_rgba8_gif(
        Seq::new(
            8,
            |k: int|
                rgba_bytes(
                    spec_flower_image(
                        seed,
                        style,
                        size,
                        variant,
                        night,
                        transparent,
                        hdr,
                        SWAY_FRAMES[k] as int,
                    ),
                ),
        ),
        n,
        n,
        spec_frame_delay(frame_delay_ms),
    )
}

/// Draws a swaying flower and encodes it as an animated GIF that repeats
/// forever; it always encodes, and the file starts with "GIF89a".
pub fn generate_flower_gif(
    seed: &str,
    style: FlowerStyle,
    size: Option<u32>,
    variant: Option<u32>,
    frame_delay_ms: Option<u32>,
    night: bool,
    transparent: bool,
    hdr: bool,
) -> (r: Result<Vec<u8>, ImageEncodingError>)
    ensures
        match r {
            Ok(bytes) => spec_flower_gif(
                seed@,
                style,
                size,
                variant,
                frame_delay_ms,
                night,
                transparent,
                hdr,
            ) == Some(bytes@),
            Err(_) => spec_flower_gif(
                seed@,
                style,
                size,
                variant,
                frame_delay_ms,
                night,
                transparent,
                hdr,
            ) is None,
        },
        r matches Ok(bytes) && bytes@.len() >= 6 && bytes@.take(6) == seq![
            0x47u8,
            0x49u8,
            0x46u8,
            0x38u8,
            0x39u8,
            0x61u8,
        ],
{
    let frames = generate_flower_animation_frames(
        seed,
        style,
        size,
        variant,
        night,
        transparent,
        hdr,
    );
    let requested = match frame_delay_ms {
        Some(d) => d,
        None => DEFAULT_FRAME_DELAY_MS,
    };
    let delay_ms = if requested < 20 {
        20
    } else {
        requested
    };
    let output_size = normalize_flower_size(size);
    let mut raw_frames: Vec<Vec<u8>> = Vec::new();
    for k in 0..frames.len()
        invariant
            frames@.len() == FLOWER_ANIMATION_FRAME_COUNT,
            output_size == spec_normalize_flower_size(size),
            forall|j: int|
                0 <= j < frames@.len() ==> is_flower_picture(
                    #[trigger] frames@[j],
                    seed@,
                    style,
                    size,
                    variant,
                    night,
                    transparent,
                    hdr,
                    SWAY_FRAMES[j] as int,
                ),
            raw_frames@.len() == k,
            forall|j: int|
                0 <= j < k ==> #[trigger] raw_frames@[j]@ == rgba_bytes(frames@[j].image.pixel_seq()),
            forall|j: int|
                0 <= j < k ==> #[trigger] raw_frames@[j]@.len() == output_size as int
                    * output_size as int * 4,
    {
        let raw = frames[k].image.to_rgba_bytes();
        proof {
            lemma_rgba_bytes_len(frames@[k as int].image.pixel_seq());
        }
        raw_frames.push(raw);
    }
    let ghost expected = Seq::new(
        8,
        |k: int|
            rgba_bytes(
                spec_flower_image(
                    seed@,
                    style,
                    size,
                    variant,
                    night,
                    transparent,
                    hdr,
                    SWAY_FRAMES[k] as int,
                ),
            ),
    );
    assert(raw_frames.deep_view() =~= expected) by {
        assert forall|k: int| 0 <= k < 8 implies raw_frames.deep_view()[k] == expected[k] by {
            assert(raw_frames@[k]@ == rgba_bytes(frames@[k].image.pixel_seq()));
        }
    }
    match gif_encode_rgba8(&raw_frames, output_size, output_size, delay_ms) {
        Ok(bytes) => Ok(bytes),
        Err(_) => Err(ImageEncodingError),
    }
}

} // verus!
