//! Encoders and decoders of the `image`, `flate2` and `crc32fast` crates,
//! each behind a trusted wrapper from plain values to plain values.

use vstd::prelude::*;
use crate::hdr_png::{be32, IHDR, PNG_SIGNATURE};
use image::ImageEncoder;
use std::io::Write;

verus! {

/// The error type of the `image` crate, carried through unexamined.
#[verifier::external_type_specification]
#[verifier::external_body]
pub struct ExImageError(image::ImageError);

/// How a PNG file of a `width` by `height` image with 8-bit samples of
/// colour type `color` begins (the `png` crate writes this header first):
/// the signature, then the IHDR chunk's length (13), type, width, height,
/// bit depth 8, colour type, and compression, filter and interlace methods 0.
pub open spec fn png_header(width: u32, height: u32, color: u8) -> Seq<u8> {
    PNG_SIGNATURE@ + be32(13) + IHDR@ + be32(width) + be32(height) + seq![8u8, color, 0u8, 0u8, 0u8]
}

/// PNG colour type 6: RGBA.
pub open spec fn png_rgba() -> u8 {
    6
}

/// PNG colour type 0: grey.
pub open spec fn png_grey() -> u8 {
    0
}

/// The PNG file that `image`'s `PngEncoder::write_image` writes for an 8-bit
/// RGBA buffer of the given size, or `None` where it reports an error.
pub uninterp spec fn encoded_rgba8_png(raw: Seq<u8>, width: u32, height: u32) -> Option<Seq<u8>>;

/// The PNG file that `image`'s `ImageBuffer::write_to` with `ImageFormat::Png`
/// writes for an 8-bit grey buffer, or `None` where it reports an error.
pub uninterp spec fn encoded_luma8_png(raw: Seq<u8>, width: u32, height: u32) -> Option<Seq<u8>>;

/// The animated GIF that `image`'s `GifEncoder` writes, repeating forever,
/// for RGBA frames of the given size each shown `delay_ms` milliseconds, or
/// `None` where it reports an error.
pub uninterp spec fn encoded_rgba8_gif(
    frames: Seq<Seq<u8>>,
    width: u32,
    height: u32,
    delay_ms: u32,
) -> Option<Seq<u8>>;

/// The grey image that `image` decodes from `bytes` (`load_from_memory`),
/// resized with the triangle filter to fit `size` where one is given
/// (`DynamicImage::resize`, which keeps the aspect ratio) and converted to
/// 8-bit luma (`to_luma8`): width, height and pixels; `None` where decoding
/// fails.
pub uninterp spec fn decoded_luma8(bytes: Seq<u8>, size: Option<(u32, u32)>) -> Option<
    (u32, u32, Seq<u8>),
>;

/// The RGBA image that `image` decodes from `bytes` (`load_from_memory`),
/// resized with the triangle filter to fit `size` where one is given
/// (`DynamicImage::resize`, which keeps the aspect ratio) and converted to
/// 8-bit RGBA (`to_rgba8`): width, height and bytes; `None` where decoding
/// fails.
pub uninterp spec fn decoded_rgba8(bytes: Seq<u8>, size: Option<(u32, u32)>) -> Option<
    (u32, u32, Seq<u8>),
>;

/// The zlib stream that `flate2`'s `ZlibEncoder` with the default
/// compression level writes for `data`.
pub uninterp spec fn zlib_compressed(data: Seq<u8>) -> Seq<u8>;

/// One bit of the reflected CRC-32 (IEEE) division: shift right, and fold in
/// the polynomial 0xEDB88320 when a one drops out.
pub open spec fn crc32_shift(c: u32) -> u32 {
    if c & 1 == 1 {
        (c >> 1u32) ^ 0xEDB8_8320u32
    } else {
        c >> 1u32
    }
}

/// The CRC register after taking in one byte: eight shifts.
pub open spec fn crc32_byte(c: u32, b: u8) -> u32 {
    let x0 = c ^ (b as u32);
    let x1 = crc32_shift(x0);
    let x2 = crc32_shift(x1);
    let x3 = crc32_shift(x2);
    let x4 = crc32_shift(x3);
    let x5 = crc32_shift(x4);
    let x6 = crc32_shift(x5);
    let x7 = crc32_shift(x6);
    crc32_shift(x7)
}

/// The CRC register after taking in `bytes`, starting from all ones.
pub open spec fn crc32_register(bytes: Seq<u8>) -> u32
    decreases bytes.len(),
{
    if bytes.len() == 0 {
        0xFFFF_FFFFu32
    } else {
        crc32_byte(crc32_register(bytes.drop_last()), bytes.last())
    }
}

/// The CRC-32 (IEEE) of `bytes`: the final register, inverted.
pub open spec fn crc32(bytes: Seq<u8>) -> u32 {
    !crc32_register(bytes)
}

/// `PngEncoder::new(..).write_image(raw, width, height, Rgba8)`. The encoder
/// asserts that the buffer holds exactly `width * height * 4` bytes, hence
/// the precondition. The result is the encoder's output, a function of the
/// arguments alone. Writing into a vector cannot fail, so the `png` crate's
/// only error here is a zero width or height; the file begins with the
/// signature and the IHDR chunk of an 8-bit RGBA image of that size.
#[verifier::external_body]
pub(crate) fn png_encode_rgba8(raw: &[u8], width: u32, height: u32) -> (r: Result<
    Vec<u8>,
    image::ImageError,
>)
    requires
        raw@.len() == width as int * height as int * 4,
    ensures
        match r {
            Ok(bytes) => {
                &&& encoded_rgba8_png(raw@, width, height) == Some(bytes@)
                &&& width > 0 && height > 0
                &&& bytes@.len() >= 29
                &&& bytes@.take(29) == png_header(width, height, png_rgba())
            },
            Err(_) => encoded_rgba8_png(raw@, width, height) is None && (width == 0 || height == 0),
        },
{
    let mut bytes = Vec::new();
    image::codecs::png::PngEncoder::new(&mut bytes).write_image(
        raw,
        width,
        height,
        image::ExtendedColorType::Rgba8,
    )?;
    Ok(bytes)
}

/// `ImageBuffer::<Luma<u8>, _>::from_raw(width, height, raw)` then
/// `write_to(.., ImageFormat::Png)`, which is `PngEncoder::write_image` with
/// `L8`. `from_raw` accepts a buffer of exactly `width * height` bytes, hence
/// the precondition. Writing into memory cannot fail, so the only error is a
/// zero width or height; the file begins with the signature and the IHDR
/// chunk of an 8-bit grey image of that size.
#[verifier::external_body]
pub(crate) fn png_encode_luma8(raw: &[u8], width: u32, height: u32) -> (r: Result<
    Vec<u8>,
    image::ImageError,
>)
    requires
        raw@.len() == width as int * height as int,
    ensures
        match r {
            Ok(bytes) => {
                &&& encoded_luma8_png(raw@, width, height) == Some(bytes@)
                &&& width > 0 && height > 0
                &&& bytes@.len() >= 29
                &&& bytes@.take(29) == png_header(width, height, png_grey())
            },
            Err(_) => encoded_luma8_png(raw@, width, height) is None && (width == 0 || height == 0),
        },
{
    let image = image::GrayImage::from_raw(width, height, raw.to_vec()).unwrap();
    let mut buf = std::io::Cursor::new(Vec::new());
    image.write_to(&mut buf, image::ImageFormat::Png)?;
    Ok(buf.into_inner())
}

/// A `GifEncoder` over a byte vector, `set_repeat(Repeat::Infinite)`, then
/// one `encode_frame` for each frame, built with `ImageBuffer::from_raw` and
/// `Frame::from_parts(.., 0, 0, Delay::from_numer_denom_ms(delay_ms, 1))`.
/// `from_raw` accepts buffers of exactly `width * height * 4` bytes, hence
/// the precondition. The `gif` encoder is made at the first frame and writes
/// the header, which starts with "GIF89a", at once. `image` refuses sides
/// above 65535; otherwise, for frames of at least one pixel, every step
/// writes into the vector (the palettes that `Frame::from_rgba_speed` builds
/// hold at most 256 colours), so encoding succeeds. The one other error the
/// `gif` crate has, an allocator refusing the LZW buffer, is a machine limit
/// that is left out here as it is for every growing vector.
#[verifier::external_body]
pub(crate) fn gif_encode_rgba8(frames: &Vec<Vec<u8>>, width: u32, height: u32, delay_ms: u32) -> (r:
    Result<Vec<u8>, image::ImageError>)
    requires
        forall|i: int|
            0 <= i < frames@.len() ==> #[trigger] frames@[i]@.len() == width as int * height as int
                * 4,
    ensures
        match r {
            Ok(bytes) => encoded_rgba8_gif(frames.deep_view(), width, height, delay_ms) == Some(
                bytes@,
            ),
            Err(_) => {
                &&& encoded_rgba8_gif(frames.deep_view(), width, height, delay_ms) is None
                &&& !(frames@.len() > 0 && 0 < width <= 0xFFFF && 0 < height <= 0xFFFF)
            },
        },
        frames@.len() > 0 ==> (r matches Ok(bytes) ==> bytes@.len() >= 6 && bytes@.take(6)
            == seq![0x47u8, 0x49u8, 0x46u8, 0x38u8, 0x39u8, 0x61u8]),
{
    let mut bytes = Vec::new();
    {
        let mut encoder = image::codecs::gif::GifEncoder::new(&mut bytes);
        encoder.set_repeat(image::codecs::gif::Repeat::Infinite)?;
        encoder.encode_frames(frames.iter().map(|raw| {
            image::Frame::from_parts(
                image::RgbaImage::from_raw(width, height, raw.clone()).unwrap(),
                0,
                0,
                image::Delay::from_numer_denom_ms(delay_ms, 1),
            )
        }))?;
    }
    Ok(bytes)
}

/// `image::load_from_memory(bytes)`, then `to_luma8()`. The buffer holds
/// one byte for each pixel.
#[verifier::external_body]
pub(crate) fn decode_luma8(bytes: &[u8]) -> (r: Result<(u32, u32, Vec<u8>), image::ImageError>)
    ensures
        match r {
            Ok((w, h, raw)) => decoded_luma8(bytes@, None) == Some((w, h, raw@)) && raw@.len()
                == w as int * h as int,
            Err(_) => decoded_luma8(bytes@, None) is None,
        },
{
    let image = image::load_from_memory(bytes)?.to_luma8();
    Ok((image.width(), image.height(), image.into_raw()))
}

/// `image::load_from_memory(bytes)`, then `resize(width, height,
/// FilterType::Triangle)`, then `to_luma8()`. The buffer holds one byte for
/// each pixel.
#[verifier::external_body]
pub(crate) fn decode_luma8_resized(bytes: &[u8], width: u32, height: u32) -> (r: Result<
    (u32, u32, Vec<u8>),
    image::ImageError,
>)
    ensures
        match r {
            Ok((w, h, raw)) => decoded_luma8(bytes@, Some((width, height))) == Some((w, h, raw@))
                && raw@.len() == w as int * h as int,
            Err(_) => decoded_luma8(bytes@, Some((width, height))) is None,
        },
{
    let image = image::load_from_memory(bytes)?
        .resize(width, height, image::imageops::FilterType::Triangle)
        .to_luma8();
    Ok((image.width(), image.height(), image.into_raw()))
}

/// `image::load_from_memory(bytes)`, then `to_rgba8()`. The buffer holds
/// four bytes for each pixel.
#[verifier::external_body]
pub(crate) fn decode_rgba8(bytes: &[u8]) -> (r: Result<(u32, u32, Vec<u8>), image::ImageError>)
    ensures
        match r {
            Ok((w, h, raw)) => decoded_rgba8(bytes@, None) == Some((w, h, raw@)) && raw@.len()
                == w as int * h as int * 4,
            Err(_) => decoded_rgba8(bytes@, None) is None,
        },
{
    let image = image::load_from_memory(bytes)?.to_rgba8();
    Ok((image.width(), image.height(), image.into_raw()))
}

/// `image::load_from_memory(bytes)`, then `resize(width, height,
/// FilterType::Triangle)`, then `to_rgba8()`. The buffer holds four bytes for
/// each pixel.
#[verifier::external_body]
pub(crate) fn decode_rgba8_resized(bytes: &[u8], width: u32, height: u32) -> (r: Result<
    (u32, u32, Vec<u8>),
    image::ImageError,
>)
    ensures
        match r {
            Ok((w, h, raw)) => decoded_rgba8(bytes@, Some((width, height))) == Some((w, h, raw@))
                && raw@.len() == w as int * h as int * 4,
            Err(_) => decoded_rgba8(bytes@, Some((width, height))) is None,
        },
{
    let image = image::load_from_memory(bytes)?
        .resize(width, height, image::imageops::FilterType::Triangle)
        .to_rgba8();
    Ok((image.width(), image.height(), image.into_raw()))
}

/// `ZlibEncoder::new(.., Compression::default())`, `write_all(data)`,
/// `finish()`. Writing into a byte vector cannot fail.
#[verifier::external_body]
pub(crate) fn zlib_compress(data: &[u8]) -> (compressed: Vec<u8>)
    ensures
        compressed@ == zlib_compressed(data@),
{
    let mut compressed = Vec::new();
    {
        let mut encoder = flate2::write::ZlibEncoder::new(
            &mut compressed,
            flate2::Compression::default(),
        );
        encoder.write_all(data).unwrap();
        encoder.finish().unwrap();
    }
    compressed
}

/// `crc32fast::Hasher::new()`, `update(first)`, `update(second)`,
/// `finalize()`: the CRC-32 of the two slices one after the other.
#[verifier::external_body]
pub(crate) fn crc32_of_parts(first: &[u8], second: &[u8]) -> (crc: u32)
    ensures
        crc == crc32(first@ + second@),
{
    let mut hasher = crc32fast::Hasher::new();
    hasher.update(first);
    hasher.update(second);
    hasher.finalize()
}

} // verus!
