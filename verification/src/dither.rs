//! Floyd–Steinberg dithering of grey images to black and white.

use vstd::prelude::*;
use crate::codec::{
    decode_luma8, decode_luma8_resized, decoded_luma8, encoded_luma8_png, png_encode_luma8,
    png_grey, png_header,
};

verus! {

/// Black for values below 128, white otherwise.
pub open spec fn quantize(v: u8) -> u8 {
    if v < 128 {
        0
    } else {
        255
    }
}

/// Integer division by 16 rounding toward zero, as `i16` division does.
pub open spec fn div16_toward_zero(v: int) -> int {
    if v >= 0 {
        v / 16
    } else {
        -((-v) / 16)
    }
}

/// A neighbour value after receiving `weight` sixteenths of the error,
/// clamped to `0..=255`.
pub open spec fn diffused(value: u8, error: int, weight: int) -> u8 {
    let adjusted = value + div16_toward_zero(error * weight);
    if adjusted < 0 {
        0
    } else if adjusted > 255 {
        255
    } else {
        adjusted as u8
    }
}

/// Passing error to the neighbour at `(x + dx, y + dy)` when it lies in the
/// image.
pub open spec fn spread(
    p: Seq<u8>,
    width: int,
    height: int,
    x: int,
    y: int,
    dx: int,
    dy: int,
    error: int,
    weight: int,
) -> Seq<u8> {
    let nx = x + dx;
    let ny = y + dy;
    if 0 <= nx < width && 0 <= ny < height {
        let i = ny * width + nx;
        p.update(i, diffused(p[i], error, weight))
    } else {
        p
    }
}

/// Dithering pixel `k` (row-major): it becomes black or white, and the
/// error goes to the right (7/16), lower left (3/16), lower (5/16) and lower
/// right (1/16) neighbours, in that order.
pub open spec fn dither_step(p: Seq<u8>, width: int, height: int, k: int) -> Seq<u8> {
    let x = k % width;
    let y = k / width;
    let old = p[k];
    let new = quantize(old);
    let error = old - new;
    let p1 = p.update(k, new);
    let p2 = spread(p1, width, height, x, y, 1, 0, error, 7);
    let p3 = spread(p2, width, height, x, y, -1, 1, error, 3);
    let p4 = spread(p3, width, height, x, y, 0, 1, error, 5);
    spread(p4, width, height, x, y, 1, 1, error, 1)
}

/// The pixels after dithering the first `n` of them.
pub open spec fn dither_upto(p: Seq<u8>, width: int, height: int, n: int) -> Seq<u8>
    decreases n,
{
    if n <= 0 {
        p
    } else {
        dither_step(dither_upto(p, width, height, n - 1), width, height, n - 1)
    }
}

/// The dithered pixels of a `width` by `height` grey image.
pub open spec fn spec_dither(p: Seq<u8>, width: int, height: int) -> Seq<u8> {
    dither_upto(p, width, height, width * height)
}

/// An 8-bit grey image: `width` by `height` pixels, rows top to bottom.
pub struct LumaImage {
    pub width: u32,
    pub height: u32,
    pub pixels: Vec<u8>,
}

impl LumaImage {
    /// One byte for each pixel.
    pub open spec fn wf(&self) -> bool {
        self.pixels@.len() == self.width as int * self.height as int
    }
}

fn diffuse_into(
    pixels: &mut Vec<u8>,
    width: u32,
    height: u32,
    x: u32,
    y: u32,
    dx: i32,
    dy: i32,
    error: i16,
    weight: i16,
)
    requires
        old(pixels)@.len() == width as int * height as int,
        x < width,
        y < height,
        -1 <= dx <= 1,
        0 <= dy <= 1,
        -127 <= error <= 127,
        0 <= weight <= 7,
    ensures
        final(pixels)@.len() == old(pixels)@.len(),
        final(pixels)@ == spread(
            old(pixels)@,
            width as int,
            height as int,
            x as int,
            y as int,
            dx as int,
            dy as int,
            error as int,
            weight as int,
        ),
{
    let nx: i64 = x as i64 + dx as i64;
    let ny: i64 = y as i64 + dy as i64;
    if nx >= 0 && ny >= 0 && nx < width as i64 && ny < height as i64 {
        assert(ny * width + nx < width as int * height as int) by (nonlinear_arith)
            requires
                0 <= nx < width,
                0 <= ny < height,
        ;
        let count = pixels.len();
        let row: usize = (ny as usize) * (width as usize);
        let index: usize = row + (nx as usize);
        let neighbor = pixels[index];
        assert(-127 * 7 <= error * weight <= 127 * 7) by (nonlinear_arith)
            requires
                -127 <= error <= 127,
                0 <= weight <= 7,
        ;
        let product: i16 = error * weight;
        let share: i16 = if product >= 0 {
            product / 16
        } else {
            -((-product) / 16)
        };
        let adjusted: i16 = neighbor as i16 + share;
        let clamped: u8 = if adjusted < 0 {
            0
        } else if adjusted > 255 {
            255
        } else {
            adjusted as u8
        };
        pixels.set(index, clamped);
    }
}

/// Dithers a grey image to black and white in place, pixel by pixel in row
/// order, with Floyd–Steinberg error diffusion.
pub fn floyd_steinberg_dither(img: &mut LumaImage)
    requires
        old(img).wf(),
    ensures
        final(img).wf(),
        final(img).width == old(img).width,
        final(img).height == old(img).height,
        final(img).pixels@ == spec_dither(
            old(img).pixels@,
            old(img).width as int,
            old(img).height as int,
        ),
        forall|i: int|
            0 <= i < final(img).pixels@.len() ==> #[trigger] final(img).pixels@[i] == 0
                || final(img).pixels@[i] == 255,
{
    let width = img.width;
    let height = img.height;
    let ghost original = img.pixels@;
    let count = img.pixels.len();
    for k in 0..count
        invariant
            img.width == width,
            img.height == height,
            count == width as int * height as int,
            img.pixels@.len() == count,
            img.pixels@ == dither_upto(original, width as int, height as int, k as int),
            forall|j: int| 0 <= j < k ==> #[trigger] img.pixels@[j] == 0 || img.pixels@[j] == 255,
    {
        let ghost before = img.pixels@;
        assert(width > 0) by (nonlinear_arith)
            requires
                k < count,
                count == width as int * height as int,
        ;
        let column: usize = k % (width as usize);
        let row: usize = k / (width as usize);
        proof {
            vstd::arithmetic::div_mod::lemma_fundamental_div_mod(k as int, width as int);
            assert(row < height) by (nonlinear_arith)
                requires
                    width * row + column == k,
                    k < width as int * height as int,
                    column >= 0,
                    width > 0,
            ;
        }
        let x: u32 = column as u32;
        let y: u32 = row as u32;
        let old_pixel = img.pixels[k];
        let new_pixel: u8 = if old_pixel < 128 {
            0
        } else {
            255
        };
        let error: i16 = old_pixel as i16 - new_pixel as i16;
        img.pixels.set(k, new_pixel);
        diffuse_into(&mut img.pixels, width, height, x, y, 1, 0, error, 7);
        diffuse_into(&mut img.pixels, width, height, x, y, -1, 1, error, 3);
        diffuse_into(&mut img.pixels, width, height, x, y, 0, 1, error, 5);
        diffuse_into(&mut img.pixels, width, height, x, y, 1, 1, error, 1);
        proof {
            lemma_step_keeps_prefix(before, width as int, height as int, k as int);
        }
    }
    proof {
        assert(count == width as int * height as int);
    }
}

/// Once pixel `j` has been dithered, later steps leave it alone.
pub proof fn lemma_dithered_pixel_stays(p: Seq<u8>, width: int, height: int, j: int, m: int)
    requires
        p.len() == width * height,
        width > 0,
        0 <= j < m <= width * height,
    ensures
        dither_upto(p, width, height, m).len() == p.len(),
        dither_upto(p, width, height, m)[j] == dither_upto(p, width, height, j + 1)[j],
    decreases m,
{
    if m > j + 1 {
        lemma_dithered_pixel_stays(p, width, height, j, m - 1);
        lemma_step_keeps_prefix(dither_upto(p, width, height, m - 1), width, height, m - 1);
    } else {
        lemma_upto_len(p, width, height, m);
    }
}

/// Dithering keeps the number of pixels.
pub proof fn lemma_upto_len(p: Seq<u8>, width: int, height: int, m: int)
    requires
        p.len() == width * height,
        width > 0,
        0 <= m <= width * height,
    ensures
        dither_upto(p, width, height, m).len() == p.len(),
    decreases m,
{
    if m > 0 {
        lemma_upto_len(p, width, height, m - 1);
        lemma_step_keeps_prefix(dither_upto(p, width, height, m - 1), width, height, m - 1);
    }
}

/// Spreading error to a neighbour after pixel `k` leaves pixels up to `k`
/// alone.
proof fn lemma_spread_after(
    p: Seq<u8>,
    width: int,
    height: int,
    x: int,
    y: int,
    dx: int,
    dy: int,
    error: int,
    weight: int,
    k: int,
)
    requires
        0 <= x + dx < width && 0 <= y + dy < height ==> k < (y + dy) * width + (x + dx) < p.len(),
    ensures
        spread(p, width, height, x, y, dx, dy, error, weight).len() == p.len(),
        forall|j: int|
            0 <= j <= k ==> #[trigger] spread(p, width, height, x, y, dx, dy, error, weight)[j]
                == p[j],
{
}

/// Dithering pixel `k` sets it to black or white and changes no earlier
/// pixel.
pub proof fn lemma_step_keeps_prefix(p: Seq<u8>, width: int, height: int, k: int)
    requires
        0 <= k < width * height,
        p.len() == width * height,
        width > 0,
    ensures
        dither_step(p, width, height, k).len() == p.len(),
        dither_step(p, width, height, k)[k] == 0 || dither_step(p, width, height, k)[k] == 255,
        forall|j: int| 0 <= j < k ==> #[trigger] dither_step(p, width, height, k)[j] == p[j],
{
    let x = k % width;
    let y = k / width;
    vstd::arithmetic::div_mod::lemma_fundamental_div_mod(k, width);
    assert(width * y + x == k);
    assert(0 <= x < width);
    let old = p[k];
    let new = quantize(old);
    let error = old - new;
    let p1 = p.update(k, new);
    let p2 = spread(p1, width, height, x, y, 1, 0, error, 7);
    let p3 = spread(p2, width, height, x, y, -1, 1, error, 3);
    let p4 = spread(p3, width, height, x, y, 0, 1, error, 5);
    let p5 = spread(p4, width, height, x, y, 1, 1, error, 1);
    assert((y + 0) * width + (x + 1) == k + 1) by (nonlinear_arith)
        requires
            width * y + x == k,
    ;
    assert((y + 1) * width + (x - 1) == k + width - 1) by (nonlinear_arith)
        requires
            width * y + x == k,
    ;
    assert((y + 1) * width + (x + 0) == k + width) by (nonlinear_arith)
        requires
            width * y + x == k,
    ;
    assert((y + 1) * width + (x + 1) == k + width + 1) by (nonlinear_arith)
        requires
            width * y + x == k,
    ;
    assert(y + 1 < height && x + 1 < width ==> k + width + 1 < width * height) by (nonlinear_arith)
        requires
            width * y + x == k,
            0 <= x < width,
    ;
    assert(y + 1 < height ==> k + width < width * height) by (nonlinear_arith)
        requires
            width * y + x == k,
            0 <= x < width,
    ;
    assert(y < height && x + 1 < width ==> k + 1 < width * height) by (nonlinear_arith)
        requires
            width * y + x == k,
            0 <= x < width,
    ;
    lemma_spread_after(p1, width, height, x, y, 1, 0, error, 7, k);
    lemma_spread_after(p2, width, height, x, y, -1, 1, error, 3, k);
    lemma_spread_after(p3, width, height, x, y, 0, 1, error, 5, k);
    lemma_spread_after(p4, width, height, x, y, 1, 1, error, 1, k);
    assert(p5 == dither_step(p, width, height, k));
    assert(p5[k] == new);
}

/// Why dithering an image failed.
#[derive(Debug, Clone, Copy, PartialEq, Eq)]
pub enum DitherError {
    /// The bytes are not an image that `image` can decode.
    Decode,
    /// `image` failed to encode the dithered PNG.
    Encode,
}

/// The size an image is resized to before dithering: both or nothing.
pub open spec fn resize_target(width: Option<u32>, height: Option<u32>) -> Option<(u32, u32)> {
    match (width, height) {
        (Some(w), Some(h)) => Some((w, h)),
        _ => None,
    }
}

/// The result of dithering an image file.
pub open spec fn spec_dither_from_bytes(
    bytes: Seq<u8>,
    width: Option<u32>,
    height: Option<u32>,
) -> Result<Seq<u8>, DitherError> {
    match decoded_luma8(bytes, resize_target(width, height)) {
        None => Err(DitherError::Decode),
        Some((w, h, pixels)) => match encoded_luma8_png(
            spec_dither(pixels, w as int, h as int),
            w,
            h,
        ) {
            None => Err(DitherError::Encode),
            Some(png) => Ok(png),
        },
    }
}

/// Decodes an image, resizes it to fit `width` by `height` when both are
/// given, converts it to grey, dithers it and encodes it as a grey PNG of
/// the decoded size; encoding fails only for an empty image.
pub fn dither_from_bytes(bytes: &[u8], width: Option<u32>, height: Option<u32>) -> (r: Result<
    Vec<u8>,
    DitherError,
>)
    ensures
        match r {
            Ok(png) => spec_dither_from_bytes(bytes@, width, height) == Ok::<Seq<u8>, DitherError>(
                png@,
            ),
            Err(e) => spec_dither_from_bytes(bytes@, width, height) == Err::<Seq<u8>, DitherError>(
                e,
            ),
        },
        r matches Ok(png) ==> (decoded_luma8(bytes@, resize_target(width, height)) matches Some(
            (w, h, _),
        ) && png@.len() >= 29 && png@.take(29) == png_header(w, h, png_grey())),
        r matches Err(DitherError::Encode) ==> (decoded_luma8(
            bytes@,
            resize_target(width, height),
        ) matches Some((w, h, _)) && (w == 0 || h == 0)),
{
    let decoded = match (width, height) {
        (Some(w), Some(h)) => decode_luma8_resized(bytes, w, h),
        _ => decode_luma8(bytes),
    };
    let (w, h, pixels) = match decoded {
        Ok(decoded) => decoded,
        Err(_) => {
            return Err(DitherError::Decode);
        },
    };
    let mut dithered = LumaImage { width: w, height: h, pixels };
    floyd_steinberg_dither(&mut dithered);
    match png_encode_luma8(dithered.pixels.as_slice(), w, h) {
        Ok(png) => Ok(png),
        Err(_) => Err(DitherError::Encode),
    }
}

} // verus!
