//! A writer of 16-bit RGB PNG files tagged for HDR (HLG) display: raw
//! scanlines compressed with zlib, framed in PNG chunks.

use vstd::prelude::*;
use crate::canvas::RgbaCanvas;
use crate::codec::{
    crc32, crc32_of_parts, decode_rgba8, decode_rgba8_resized, decoded_rgba8, zlib_compress,
    zlib_compressed,
};
use crate::dither::resize_target;

verus! {

/// The eight bytes every PNG file starts with.
pub const PNG_SIGNATURE: [u8; 8] = [0x89, 0x50, 0x4E, 0x47, 0x0D, 0x0A, 0x1A, 0x0A];

/// Chunk type "IHDR".
pub const IHDR: [u8; 4] = [0x49, 0x48, 0x44, 0x52];

/// Chunk type "cICP".
pub const CICP: [u8; 4] = [0x63, 0x49, 0x43, 0x50];

/// Chunk type "mDCV".
pub const MDCV: [u8; 4] = [0x6D, 0x44, 0x43, 0x56];

/// Chunk type "cLLI".
pub const CLLI: [u8; 4] = [0x63, 0x4C, 0x4C, 0x49];

/// Chunk type "IDAT".
pub const IDAT: [u8; 4] = [0x49, 0x44, 0x41, 0x54];

/// Chunk type "IEND".
pub const IEND: [u8; 4] = [0x49, 0x45, 0x4E, 0x44];

/// The cICP payload: BT.2020 primaries, HLG transfer, identity matrix,
/// full range.
pub const CICP_HLG: [u8; 4] = [12, 18, 0, 1];

/// `value` as two big-endian bytes, keeping its low 16 bits.
pub open spec fn be16(value: u32) -> Seq<u8> {
    seq![((value / 256) % 256) as u8, (value % 256) as u8]
}

/// `value` as four big-endian bytes.
pub open spec fn be32(value: u32) -> Seq<u8> {
    seq![
        (value / 0x100_0000) as u8,
        ((value / 0x1_0000) % 256) as u8,
        ((value / 256) % 256) as u8,
        (value % 256) as u8,
    ]
}

/// Appends bytes to a vector.
pub fn append_bytes(out: &mut Vec<u8>, bytes: &[u8])
    ensures
        final(out)@ == old(out)@ + bytes@,
{
    let ghost start = out@;
    for i in 0..bytes.len()
        invariant
            out@ == start + bytes@.take(i as int),
    {
        out.push(bytes[i]);
        proof {
            assert(start + bytes@.take(i + 1) =~= start + bytes@.take(i as int) + seq![bytes@[i as int]]);
        }
    }
    proof {
        assert(bytes@.take(bytes@.len() as int) =~= bytes@);
    }
}

/// Appends `value` as four big-endian bytes.
pub fn push_be32(out: &mut Vec<u8>, value: u32)
    ensures
        final(out)@ == old(out)@ + be32(value),
{
    out.push((value / 0x100_0000) as u8);
    out.push(((value / 0x1_0000) % 256) as u8);
    out.push(((value / 256) % 256) as u8);
    out.push((value % 256) as u8);
    assert(final(out)@ =~= old(out)@ + be32(value)) by {
        assert(out@ =~= old(out)@ + be32(value));
    }
}

/// Writes the low 16 bits of `value`, big-endian, at `offset`.
pub fn put_u16(out: &mut [u8; 24], offset: usize, value: u32)
    requires
        offset + 2 <= 24,
    ensures
        final(out)@ == old(out)@.update(offset as int, be16(value)[0]).update(
            offset + 1,
            be16(value)[1],
        ),
{
    out[offset] = ((value / 256) % 256) as u8;
    out[offset + 1] = (value % 256) as u8;
}

/// Writes `value`, big-endian, at `offset`.
pub fn put_u32(out: &mut [u8; 24], offset: usize, value: u32)
    requires
        offset + 4 <= 24,
    ensures
        final(out)@ == old(out)@.update(offset as int, be32(value)[0]).update(
            offset + 1,
            be32(value)[1],
        ).update(offset + 2, be32(value)[2]).update(offset + 3, be32(value)[3]),
{
    out[offset] = (value / 0x100_0000) as u8;
    out[offset + 1] = ((value / 0x1_0000) % 256) as u8;
    out[offset + 2] = ((value / 256) % 256) as u8;
    out[offset + 3] = (value % 256) as u8;
}

/// The mDCV payload: the display primaries (red, green, blue), white point,
/// maximum and minimum luminance of the mastering display.
pub open spec fn spec_mastering_display() -> Seq<u8> {
    be16(13250) + be16(34500) + be16(7500) + be16(3000) + be16(34000) + be16(16000) + be16(15635)
        + be16(16450) + be32(10_000_000) + be32(1)
}

pub fn mastering_display() -> (data: [u8; 24])
    ensures
        data@ == spec_mastering_display(),
{
    let mut data = [0u8; 24];
    put_u16(&mut data, 0, 13250);
    put_u16(&mut data, 2, 34500);
    put_u16(&mut data, 4, 7500);
    put_u16(&mut data, 6, 3000);
    put_u16(&mut data, 8, 34000);
    put_u16(&mut data, 10, 16000);
    put_u16(&mut data, 12, 15635);
    put_u16(&mut data, 14, 16450);
    put_u32(&mut data, 16, 10_000_000);
    put_u32(&mut data, 20, 1);
    assert(data@ =~= spec_mastering_display());
    data
}

/// The cLLI payload: maximum content light level and maximum frame-average
/// light level, in units of 0.0001 cd/m².
pub open spec fn spec_content_light_level(max_cll: u32, max_fall: u32) -> Seq<u8> {
    be32(max_cll) + be32(max_fall)
}

pub fn content_light_level(max_cll: u32, max_fall: u32) -> (data: Vec<u8>)
    ensures
        data@ == spec_content_light_level(max_cll, max_fall),
{
    let mut data: Vec<u8> = Vec::new();
    push_be32(&mut data, max_cll);
    push_be32(&mut data, max_fall);
    data
}

/// A PNG chunk: the data length (big-endian, low 32 bits), the type, the
/// data and the CRC-32 of type and data.
pub open spec fn spec_chunk(chunk_type: Seq<u8>, data: Seq<u8>) -> Seq<u8> {
    be32(data.len() as u32) + chunk_type + data + be32(crc32(chunk_type + data))
}

/// Appends a PNG chunk.
pub fn write_chunk(output: &mut Vec<u8>, chunk_type: &[u8; 4], data: &[u8])
    ensures
        final(output)@ == old(output)@ + spec_chunk(chunk_type@, data@),
{
    push_be32(output, data.len() as u32);
    append_bytes(output, chunk_type.as_slice());
    append_bytes(output, data);
    let crc = crc32_of_parts(chunk_type.as_slice(), data);
    push_be32(output, crc);
    assert(output@ =~= old(output)@ + spec_chunk(chunk_type@, data@));
}

/// The samples as big-endian byte pairs.
pub open spec fn samples_be(samples: Seq<u16>) -> Seq<u8>
    decreases samples.len(),
{
    if samples.len() == 0 {
        Seq::empty()
    } else {
        samples_be(samples.drop_last()) + be16(samples.last() as u32)
    }
}

/// The first `rows` scanlines of a 16-bit RGB image `width` pixels wide:
/// each is filter byte 0 followed by the row's samples, big-endian.
pub open spec fn scanlines(samples: Seq<u16>, width: int, rows: int) -> Seq<u8>
    decreases rows,
{
    if rows <= 0 {
        Seq::empty()
    } else {
        scanlines(samples, width, rows - 1) + seq![0u8] + samples_be(
            samples.subrange((rows - 1) * width * 3, rows * width * 3),
        )
    }
}

/// The IHDR payload of a 16-bit RGB image: width, height, bit depth 16,
/// colour type 2, default compression, filter and no interlace.
pub open spec fn spec_ihdr(width: u32, height: u32) -> Seq<u8> {
    be32(width) + be32(height) + seq![16u8, 2u8, 0u8, 0u8, 0u8]
}

/// The HDR PNG file: signature, IHDR, cICP (HLG), mDCV, cLLI, the
/// compressed scanlines in one IDAT, and IEND.
pub open spec fn spec_hdr_png(
    width: u32,
    height: u32,
    samples: Seq<u16>,
    max_cll: u32,
    max_fall: u32,
) -> Seq<u8> {
    PNG_SIGNATURE@ + spec_chunk(IHDR@, spec_ihdr(width, height)) + spec_chunk(CICP@, CICP_HLG@)
        + spec_chunk(MDCV@, spec_mastering_display()) + spec_chunk(
        CLLI@,
        spec_content_light_level(max_cll, max_fall),
    ) + spec_chunk(
        IDAT@,
        zlib_compressed(
            scanlines(samples.take(width * height * 3), width as int, height as int),
        ),
    ) + spec_chunk(IEND@, Seq::empty())
}

fn raw_scanlines(width: u32, height: u32, rgb16: &[u16]) -> (raw: Vec<u8>)
    requires
        width as int * 6 + 1 <= u32::MAX,
        (width as int * 6 + 1) * height as int <= u32::MAX,
        rgb16@.len() >= width as int * height as int * 3,
    ensures
        raw@ == scanlines(rgb16@, width as int, height as int),
{
    let mut raw: Vec<u8> = Vec::new();
    let row_len: u32 = width * 3;
    for y in 0..height
        invariant
            width as int * 6 + 1 <= u32::MAX,
            (width as int * 6 + 1) * height as int <= u32::MAX,
            rgb16@.len() >= width as int * height as int * 3,
            row_len == width * 3,
            raw@ == scanlines(rgb16@, width as int, y as int),
    {
        raw.push(0);
        assert((y + 1) * row_len <= width as int * height as int * 3) by (nonlinear_arith)
            requires
                y < height,
                row_len == width * 3,
        ;
        assert(y * row_len + row_len == (y + 1) * row_len) by (nonlinear_arith);
        assert((width as int * 6 + 1) * height as int >= (y + 1) * row_len) by (nonlinear_arith)
            requires
                y < height,
                row_len == width * 3,
        ;
        let row_start: u32 = y * row_len;
        let ghost before = raw@;
        for x in 0..row_len
            invariant
                row_start as int + row_len as int <= rgb16@.len(),
                row_start as int + row_len as int <= u32::MAX,
                raw@ == before + samples_be(
                    rgb16@.subrange(row_start as int, row_start as int + x as int),
                ),
        {
            let sample = rgb16[(row_start + x) as usize];
            raw.push((sample / 256) as u8);
            raw.push((sample % 256) as u8);
            proof {
                let s = rgb16@.subrange(row_start as int, row_start as int + x + 1);
                assert(s.drop_last() =~= rgb16@.subrange(row_start as int, row_start as int + x));
                assert(raw@ =~= before + samples_be(s));
            }
        }
        assert(raw@ == scanlines(rgb16@, width as int, y + 1)) by {
            assert(row_start as int == y as int * width as int * 3) by (nonlinear_arith)
                requires
                    row_start == y * row_len,
                    row_len == width * 3,
            ;
            assert((y + 1) as int * width as int * 3 == row_start + row_len) by (nonlinear_arith)
                requires
                    row_start == y * row_len,
                    row_len == width * 3,
            ;
        }
    }
    raw
}

/// Encodes 16-bit RGB samples (row after row, three per pixel) as a PNG file
/// tagged for HLG display. `max_cll` and `max_fall` are the light levels of
/// the cLLI chunk.
pub fn encode_hdr_png(width: u32, height: u32, rgb16: &[u16], max_cll: u32, max_fall: u32) -> (png:
    Vec<u8>)
    requires
        width as int * 6 + 1 <= u32::MAX,
        (width as int * 6 + 1) * height as int <= u32::MAX,
        rgb16@.len() >= width as int * height as int * 3,
    ensures
        png@ == spec_hdr_png(width, height, rgb16@, max_cll, max_fall),
{
    let raw = raw_scanlines(width, height, rgb16);
    let compressed = zlib_compress(raw.as_slice());

    let mut png: Vec<u8> = Vec::new();
    append_bytes(&mut png, PNG_SIGNATURE.as_slice());

    let mut ihdr: Vec<u8> = Vec::new();
    push_be32(&mut ihdr, width);
    push_be32(&mut ihdr, height);
    ihdr.push(16);
    ihdr.push(2);
    ihdr.push(0);
    ihdr.push(0);
    ihdr.push(0);
    write_chunk(&mut png, &IHDR, ihdr.as_slice());

    write_chunk(&mut png, &CICP, CICP_HLG.as_slice());
    let mastering = mastering_display();
    write_chunk(&mut png, &MDCV, mastering.as_slice());
    let light = content_light_level(max_cll, max_fall);
    write_chunk(&mut png, &CLLI, light.as_slice());

    write_chunk(&mut png, &IDAT, compressed.as_slice());
    let empty: Vec<u8> = Vec::new();
    write_chunk(&mut png, &IEND, empty.as_slice());
    proof {
        assert(ihdr@ =~= spec_ihdr(width, height));
        assert(rgb16@.take(width * height * 3) =~= rgb16@.take(width as int * height as int * 3));
        lemma_scanlines_prefix(rgb16@, width as int, height as int);
        assert(empty@ =~= Seq::<u8>::empty());
    }
    png
}

/// The scanlines read only the first `width * height * 3` samples.
proof fn lemma_scanlines_prefix(samples: Seq<u16>, width: int, rows: int)
    requires
        0 <= width,
        0 <= rows,
        samples.len() >= width * rows * 3,
    ensures
        scanlines(samples.take(width * rows * 3), width, rows) == scanlines(samples, width, rows),
    decreases rows,
{
    assert(width * rows * 3 >= 0) by (nonlinear_arith)
        requires
            0 <= width,
            0 <= rows,
    ;
    if rows > 0 {
        let short = samples.take(width * rows * 3);
        assert(width * (rows - 1) * 3 <= width * rows * 3) by (nonlinear_arith)
            requires
                0 <= width,
                0 < rows,
        ;
        assert(width * (rows - 1) * 3 >= 0) by (nonlinear_arith)
            requires
                0 <= width,
                0 < rows,
        ;
        assert(short.take(width * (rows - 1) * 3) =~= samples.take(width * (rows - 1) * 3));
        lemma_scanlines_prefix(samples, width, rows - 1);
        lemma_scanlines_prefix(short, width, rows - 1);
        assert((rows - 1) * width * 3 == width * (rows - 1) * 3) by (nonlinear_arith);
        assert(rows * width * 3 == width * rows * 3) by (nonlinear_arith);
        assert(short.subrange((rows - 1) * width * 3, rows * width * 3) =~= samples.subrange(
            (rows - 1) * width * 3,
            rows * width * 3,
        ));
    }
}

/// Decodes the picture an HDR image is made from: resized to fit `width` by
/// `height` when both are given, as 8-bit RGBA.
pub fn decode_hdr_source(bytes: &[u8], width: Option<u32>, height: Option<u32>) -> (r: Result<
    RgbaCanvas,
    image::ImageError,
>)
    ensures
        match r {
            Ok(canvas) => match decoded_rgba8(bytes@, resize_target(width, height)) {
                Some((w, h, raw)) => {
                    &&& canvas.wf()
                    &&& canvas.width() == w
                    &&& canvas.height() == h
                    &&& forall|i: int|
                        0 <= i < w as int * h as int ==> #[trigger] canvas.pixel_seq()[i] == [
                            raw[4 * i],
                            raw[4 * i + 1],
                            raw[4 * i + 2],
                            raw[4 * i + 3],
                        ]
                },
                None => false,
            },
            Err(_) => decoded_rgba8(bytes@, resize_target(width, height)) is None,
        },
{
    let (w, h, raw) = match (width, height) {
        (Some(w), Some(h)) => decode_rgba8_resized(bytes, w, h)?,
        _ => decode_rgba8(bytes)?,
    };
    Ok(RgbaCanvas::from_rgba_bytes(w, h, raw.as_slice()))
}

} // verus!
