//! An RGBA image held as a row-major sequence of pixels.

use vstd::prelude::*;

verus! {

/// An RGBA image: `width` by `height` pixels, rows top to bottom.
#[derive(Debug, Clone, PartialEq, Eq)]
pub struct RgbaCanvas {
    width: u32,
    height: u32,
    pixels: Vec<[u8; 4]>,
}

impl RgbaCanvas {
    pub closed spec fn width(&self) -> u32 {
        self.width
    }

    pub closed spec fn height(&self) -> u32 {
        self.height
    }

    /// The pixels, row after row.
    pub closed spec fn pixel_seq(&self) -> Seq<[u8; 4]> {
        self.pixels@
    }

    /// One pixel for each position.
    pub open spec fn wf(&self) -> bool {
        self.pixel_seq().len() == self.width() as int * self.height() as int
    }

    /// The pixel at column `x` of row `y`.
    pub open spec fn pixel_at(&self, x: int, y: int) -> [u8; 4] {
        self.pixel_seq()[y * self.width() + x]
    }

    /// An image filled with one colour.
    pub fn from_pixel(width: u32, height: u32, pixel: [u8; 4]) -> (canvas: Self)
        requires
            width as int * height as int <= usize::MAX,
        ensures
            canvas.wf(),
            canvas.width() == width,
            canvas.height() == height,
            canvas.pixel_seq() == Seq::new((width * height) as nat, |i: int| pixel),
    {
        let count: usize = (width as usize) * (height as usize);
        let mut pixels: Vec<[u8; 4]> = Vec::new();
        for i in 0..count
            invariant
                pixels@.len() == i,
                forall|j: int| 0 <= j < i ==> pixels@[j] == pixel,
        {
            pixels.push(pixel);
        }
        let canvas = RgbaCanvas { width, height, pixels };
        assert(canvas.pixel_seq() =~= Seq::new((width * height) as nat, |i: int| pixel));
        canvas
    }

    /// An image from its red, green, blue and alpha bytes, row after row.
    pub fn from_rgba_bytes(width: u32, height: u32, raw: &[u8]) -> (canvas: Self)
        requires
            raw@.len() == width as int * height as int * 4,
        ensures
            canvas.wf(),
            canvas.width() == width,
            canvas.height() == height,
            forall|i: int|
                0 <= i < width as int * height as int ==> #[trigger] canvas.pixel_seq()[i] == [
                    raw@[4 * i],
                    raw@[4 * i + 1],
                    raw@[4 * i + 2],
                    raw@[4 * i + 3],
                ],
    {
        let total: usize = raw.len();
        let count: usize = total / 4;
        let mut pixels: Vec<[u8; 4]> = Vec::new();
        for i in 0..count
            invariant
                count == width as int * height as int,
                raw@.len() == 4 * count,
                total == raw@.len(),
                pixels@.len() == i,
                forall|j: int|
                    0 <= j < i ==> #[trigger] pixels@[j] == [
                        raw@[4 * j],
                        raw@[4 * j + 1],
                        raw@[4 * j + 2],
                        raw@[4 * j + 3],
                    ],
        {
            assert(4 * i + 3 < total);
            let at: usize = 4 * i;
            pixels.push([raw[at], raw[at + 1], raw[at + 2], raw[at + 3]]);
        }
        RgbaCanvas { width, height, pixels }
    }

    /// Width and height.
    pub fn dimensions(&self) -> (d: (u32, u32))
        ensures
            d == (self.width(), self.height()),
    {
        (self.width, self.height)
    }

    pub fn width_of(&self) -> (w: u32)
        ensures
            w == self.width(),
    {
        self.width
    }

    pub fn height_of(&self) -> (h: u32)
        ensures
            h == self.height(),
    {
        self.height
    }

    /// The pixel at column `x` of row `y`.
    pub fn get_pixel(&self, x: u32, y: u32) -> (p: [u8; 4])
        requires
            self.wf(),
            x < self.width(),
            y < self.height(),
        ensures
            p == self.pixel_at(x as int, y as int),
    {
        let n = self.pixels.len();
        assert(y as int * self.width() + x < self.width() as int * self.height()) by (nonlinear_arith)
            requires
                x < self.width(),
                y < self.height(),
        ;
        let row: usize = (y as usize) * (self.width as usize);
        self.pixels[row + (x as usize)]
    }

    /// All pixels, row after row.
    pub fn pixels(&self) -> (p: &[[u8; 4]])
        ensures
            p@ == self.pixel_seq(),
    {
        self.pixels.as_slice()
    }

    /// The pixel at a position in the row-major sequence.
    pub fn pixel_by_index(&self, index: usize) -> (p: [u8; 4])
        requires
            index < self.pixel_seq().len(),
        ensures
            p == self.pixel_seq()[index as int],
    {
        self.pixels[index]
    }

    /// Sets the pixel at a position in the row-major sequence.
    pub fn set_by_index(&mut self, index: usize, pixel: [u8; 4])
        requires
            index < old(self).pixel_seq().len(),
        ensures
            final(self).width() == old(self).width(),
            final(self).height() == old(self).height(),
            final(self).pixel_seq() == old(self).pixel_seq().update(index as int, pixel),
    {
        self.pixels.set(index, pixel);
    }

    /// The red, green, blue and alpha bytes of every pixel, row after row.
    pub fn to_rgba_bytes(&self) -> (bytes: Vec<u8>)
        ensures
            bytes@ == rgba_bytes(self.pixel_seq()),
    {
        let mut bytes: Vec<u8> = Vec::new();
        for i in 0..self.pixels.len()
            invariant
                bytes@ == rgba_bytes(self.pixel_seq().take(i as int)),
        {
            let p = self.pixels[i];
            proof {
                assert(self.pixel_seq().take(i + 1).drop_last() =~= self.pixel_seq().take(i as int));
            }
            bytes.push(p[0]);
            bytes.push(p[1]);
            bytes.push(p[2]);
            bytes.push(p[3]);
            proof {
                assert(bytes@ =~= rgba_bytes(self.pixel_seq().take(i as int)) + seq![
                    p[0],
                    p[1],
                    p[2],
                    p[3],
                ]);
            }
        }
        proof {
            assert(self.pixel_seq().take(self.pixel_seq().len() as int) =~= self.pixel_seq());
        }
        bytes
    }
}

/// The bytes of a pixel sequence, four for each pixel.
pub open spec fn rgba_bytes(pixels: Seq<[u8; 4]>) -> Seq<u8>
    decreases pixels.len(),
{
    if pixels.len() == 0 {
        Seq::empty()
    } else {
        let p = pixels.last();
        rgba_bytes(pixels.drop_last()) + seq![p[0], p[1], p[2], p[3]]
    }
}

pub proof fn lemma_rgba_bytes_len(pixels: Seq<[u8; 4]>)
    ensures
        rgba_bytes(pixels).len() == 4 * pixels.len(),
    decreases pixels.len(),
{
    if pixels.len() > 0 {
        lemma_rgba_bytes_len(pixels.drop_last());
    }
}

} // verus!
