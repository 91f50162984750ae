//! The 16 by 16 grid of logical pixels that a flower is drawn on.

use vstd::prelude::*;

verus! {

/// Width and height of the logical grid.
pub const LOGICAL_SIZE: i32 = 16;

/// Which part of the flower a pixel belongs to; it decides how the pixel
/// sways in an animation.
#[derive(Debug, Clone, Copy, PartialEq, Eq)]
pub enum PixelPart {
    Flower,
    Stem,
    Base,
}

/// A coloured logical pixel.
#[derive(Debug, Clone, Copy, PartialEq, Eq)]
pub struct Pixel {
    pub color: [u8; 4],
    pub part: PixelPart,
}

/// Whether `(x, y)` lies on the grid.
pub open spec fn on_grid(x: int, y: int) -> bool {
    0 <= x < 16 && 0 <= y < 16
}

/// The cell index of `(x, y)`: rows of 16 cells, top row first.
pub open spec fn cell_index(x: int, y: int) -> int {
    y * 16 + x
}

/// The empty grid.
pub open spec fn empty_cells() -> Seq<Option<Pixel>> {
    Seq::new(256, |i: int| None)
}

/// Setting the pixel at `(x, y)`; a position off the grid is ignored.
pub open spec fn spec_add_part(
    cells: Seq<Option<Pixel>>,
    x: int,
    y: int,
    color: [u8; 4],
    part: PixelPart,
) -> Seq<Option<Pixel>> {
    if on_grid(x, y) {
        cells.update(cell_index(x, y), Some(Pixel { color, part }))
    } else {
        cells
    }
}

/// A flower pixel at `(cx + ox, cy + oy)` and, unless `ox` is 0, its mirror
/// image at `(cx - ox, cy + oy)`.
pub open spec fn spec_add_mirrored(
    cells: Seq<Option<Pixel>>,
    cx: int,
    cy: int,
    ox: int,
    oy: int,
    color: [u8; 4],
) -> Seq<Option<Pixel>> {
    let once = spec_add_part(cells, cx + ox, cy + oy, color, PixelPart::Flower);
    if ox != 0 {
        spec_add_part(once, cx - ox, cy + oy, color, PixelPart::Flower)
    } else {
        once
    }
}

/// The bounding box `(min_x, max_x, min_y, max_y)` of the pixels among the
/// first `n` cells, if there is any.
pub open spec fn bounds_upto(cells: Seq<Option<Pixel>>, n: int) -> Option<(int, int, int, int)>
    decreases n,
{
    if n <= 0 {
        None
    } else {
        let prev = bounds_upto(cells, n - 1);
        let i = n - 1;
        if cells[i] is Some {
            let x = i % 16;
            let y = i / 16;
            match prev {
                None => Some((x, x, y, y)),
                Some((a, b, c, d)) => Some(
                    (
                        if x < a { x } else { a },
                        if x > b { x } else { b },
                        if y < c { y } else { c },
                        if y > d { y } else { d },
                    ),
                ),
            }
        } else {
            prev
        }
    }
}

/// The shift that moves the centre of the span `lo..=hi` to 7.5, rounded
/// half up: `floor(7.5 - (lo + hi) / 2 + 0.5)`.
pub open spec fn centering_shift(lo: int, hi: int) -> int {
    8 - (lo + hi + 1) / 2
}

pub open spec fn clamp_to_grid(v: int) -> int {
    if v < 0 {
        0
    } else if v > 15 {
        15
    } else {
        v
    }
}

/// The first `n` cells moved by `(dx, dy)` onto an empty grid, clamped to
/// the grid, in row order.
pub open spec fn shifted_upto(cells: Seq<Option<Pixel>>, dx: int, dy: int, n: int) -> Seq<
    Option<Pixel>,
>
    decreases n,
{
    if n <= 0 {
        empty_cells()
    } else {
        let prev = shifted_upto(cells, dx, dy, n - 1);
        let i = n - 1;
        match cells[i] {
            None => prev,
            Some(p) => prev.update(
                cell_index(clamp_to_grid(i % 16 + dx), clamp_to_grid(i / 16 + dy)),
                Some(p),
            ),
        }
    }
}

/// The grid moved so that the bounding box of its pixels is centred.
pub open spec fn spec_recenter(cells: Seq<Option<Pixel>>) -> Seq<Option<Pixel>> {
    match bounds_upto(cells, 256) {
        None => cells,
        Some((a, b, c, d)) => {
            let dx = centering_shift(a, b);
            let dy = centering_shift(c, d);
            if dx == 0 && dy == 0 {
                cells
            } else {
                shifted_upto(cells, dx, dy, 256)
            }
        },
    }
}

/// The logical pixels of a flower, one cell for each grid position.
pub struct PixelGrid {
    cells: Vec<Option<Pixel>>,
}

impl View for PixelGrid {
    type V = Seq<Option<Pixel>>;

    closed spec fn view(&self) -> Seq<Option<Pixel>> {
        self.cells@
    }
}

impl PixelGrid {
    /// A grid has one cell for each of the 256 positions.
    pub open spec fn wf(&self) -> bool {
        self@.len() == 256
    }

    /// The empty grid.
    pub fn new() -> (grid: Self)
        ensures
            grid@ == empty_cells(),
            grid.wf(),
    {
        let mut cells: Vec<Option<Pixel>> = Vec::new();
        for i in 0..256
            invariant
                cells@.len() == i,
                forall|j: int| 0 <= j < i ==> cells@[j] is None,
        {
            cells.push(None);
        }
        assert(cells@ =~= empty_cells());
        PixelGrid { cells }
    }

    /// The pixel at a cell index.
    pub fn get(&self, index: usize) -> (p: Option<Pixel>)
        requires
            self.wf(),
            index < 256,
        ensures
            p == self@[index as int],
    {
        self.cells[index]
    }

    /// Whether the grid holds no pixel.
    pub fn is_empty(&self) -> (empty: bool)
        requires
            self.wf(),
        ensures
            empty == (forall|i: int| 0 <= i < 256 ==> self@[i] is None),
    {
        let mut i: usize = 0;
        while i < 256
            invariant
                self.cells@.len() == 256,
                i <= 256,
                forall|j: int| 0 <= j < i ==> self@[j] is None,
            decreases 256 - i,
        {
            if self.cells[i].is_some() {
                return false;
            }
            i += 1;
        }
        true
    }

    /// Adds a flower pixel.
    pub fn add(&mut self, x: i32, y: i32, color: [u8; 4])
        requires
            old(self).wf(),
        ensures
            final(self).wf(),
            final(self)@ == spec_add_part(old(self)@, x as int, y as int, color, PixelPart::Flower),
    {
        self.add_part(x, y, color, PixelPart::Flower);
    }

    /// Sets the pixel at `(x, y)` when it lies on the grid.
    pub fn add_part(&mut self, x: i32, y: i32, color: [u8; 4], part: PixelPart)
        requires
            old(self).wf(),
        ensures
            final(self).wf(),
            final(self)@ == spec_add_part(old(self)@, x as int, y as int, color, part),
    {
        if 0 <= x && x < LOGICAL_SIZE && 0 <= y && y < LOGICAL_SIZE {
            let index: usize = (y * 16 + x) as usize;
            self.cells.set(index, Some(Pixel { color, part }));
        }
    }

    /// Adds a flower pixel at an offset from a centre, mirrored across the
    /// vertical line through the centre.
    pub fn add_mirrored(
        &mut self,
        center_x: i32,
        center_y: i32,
        offset_x: i32,
        offset_y: i32,
        color: [u8; 4],
    )
        requires
            old(self).wf(),
            i32::MIN <= center_x + offset_x <= i32::MAX,
            i32::MIN <= center_x - offset_x <= i32::MAX,
            i32::MIN <= center_y + offset_y <= i32::MAX,
        ensures
            final(self).wf(),
            final(self)@ == spec_add_mirrored(
                old(self)@,
                center_x as int,
                center_y as int,
                offset_x as int,
                offset_y as int,
                color,
            ),
    {
        self.add(center_x + offset_x, center_y + offset_y, color);
        if offset_x != 0 {
            self.add(center_x - offset_x, center_y + offset_y, color);
        }
    }

    /// Moves the pixels so that their bounding box is centred on the grid.
    pub fn recenter(&mut self)
        requires
            old(self).wf(),
        ensures
            final(self).wf(),
            final(self)@ == spec_recenter(old(self)@),
    {
        let mut bounds: Option<(i32, i32, i32, i32)> = None;
        let mut i: usize = 0;
        while i < 256
            invariant
                self.cells@.len() == 256,
                i <= 256,
                match bounds {
                    None => bounds_upto(self@, i as int) is None,
                    Some((a, b, c, d)) => bounds_upto(self@, i as int) == Some(
                        (a as int, b as int, c as int, d as int),
                    ) && 0 <= a <= b < 16 && 0 <= c <= d < 16,
                },
            decreases 256 - i,
        {
            if self.cells[i].is_some() {
                let x: i32 = (i % 16) as i32;
                let y: i32 = (i / 16) as i32;
                bounds = match bounds {
                    None => Some((x, x, y, y)),
                    Some((a, b, c, d)) => Some(
                        (
                            if x < a { x } else { a },
                            if x > b { x } else { b },
                            if y < c { y } else { c },
                            if y > d { y } else { d },
                        ),
                    ),
                };
            }
            i += 1;
        }
        let (min_x, max_x, min_y, max_y) = match bounds {
            None => {
                return;
            },
            Some(b) => b,
        };
        let dx: i32 = 8 - (min_x + max_x + 1) / 2;
        let dy: i32 = 8 - (min_y + max_y + 1) / 2;
        if dx == 0 && dy == 0 {
            return;
        }
        let mut old = PixelGrid::new();
        std::mem::swap(self, &mut old);
        let mut j: usize = 0;
        while j < 256
            invariant
                old.cells@.len() == 256,
                self.cells@.len() == 256,
                j <= 256,
                -8 <= dx <= 8,
                -8 <= dy <= 8,
                self@ == shifted_upto(old@, dx as int, dy as int, j as int),
            decreases 256 - j,
        {
            if let Some(pixel) = old.cells[j] {
                let x: i32 = (j % 16) as i32 + dx;
                let y: i32 = (j / 16) as i32 + dy;
                let nx: i32 = if x < 0 { 0 } else if x > 15 { 15 } else { x };
                let ny: i32 = if y < 0 { 0 } else if y > 15 { 15 } else { y };
                self.cells.set((ny * 16 + nx) as usize, Some(pixel));
            }
            j += 1;
        }
    }
}


// ---------------------------------------------------------------- recentring

/// The cell that a move by `(dx, dy)` brings to cell `j`, from the first `n`
/// cells: the one `dx` columns left and `dy` rows up, if it is on the grid.
pub open spec fn translated_source(cells: Seq<Option<Pixel>>, dx: int, dy: int, n: int, j: int) -> Option<
    Pixel,
> {
    let sx = j % 16 - dx;
    let sy = j / 16 - dy;
    if on_grid(sx, sy) && cell_index(sx, sy) < n {
        cells[cell_index(sx, sy)]
    } else {
        None
    }
}

/// Every pixel stays on the grid when moved by `(dx, dy)`.
pub open spec fn moves_within_grid(cells: Seq<Option<Pixel>>, dx: int, dy: int) -> bool {
    forall|i: int| 0 <= i < 256 && (#[trigger] cells[i]) is Some ==> on_grid(i % 16 + dx, i / 16 + dy)
}

/// Where no pixel is pushed against an edge, shifting moves every pixel by
/// `(dx, dy)` and loses none.
pub proof fn lemma_shift_is_translation(cells: Seq<Option<Pixel>>, dx: int, dy: int, n: int)
    requires
        0 <= n <= 256,
        moves_within_grid(cells, dx, dy),
    ensures
        shifted_upto(cells, dx, dy, n).len() == 256,
        forall|j: int|
            0 <= j < 256 ==> #[trigger] shifted_upto(cells, dx, dy, n)[j] == translated_source(
                cells,
                dx,
                dy,
                n,
                j,
            ),
    decreases n,
{
    if n > 0 {
        lemma_shift_is_translation(cells, dx, dy, n - 1);
        let i = n - 1;
        let prev = shifted_upto(cells, dx, dy, n - 1);
        let next = shifted_upto(cells, dx, dy, n);
        assert forall|j: int| 0 <= j < 256 implies #[trigger] next[j] == translated_source(
            cells,
            dx,
            dy,
            n,
            j,
        ) by {
            assert(prev[j] == translated_source(cells, dx, dy, n - 1, j));
            if cells[i] is Some {
                assert(on_grid(i % 16 + dx, i / 16 + dy));
            }
        }
    }
}

/// `(a, b, c, d)` bounds the pixels among the first `n` cells, and each of
/// the four is reached by one of them.
pub open spec fn is_bounding_box(cells: Seq<Option<Pixel>>, n: int, bx: (int, int, int, int)) -> bool {
    &&& forall|i: int|
        0 <= i < n && (#[trigger] cells[i]) is Some ==> bx.0 <= i % 16 <= bx.1 && bx.2 <= i / 16
            <= bx.3
    &&& exists|i: int| 0 <= i < n && (#[trigger] cells[i]) is Some && i % 16 == bx.0
    &&& exists|i: int| 0 <= i < n && (#[trigger] cells[i]) is Some && i % 16 == bx.1
    &&& exists|i: int| 0 <= i < n && (#[trigger] cells[i]) is Some && i / 16 == bx.2
    &&& exists|i: int| 0 <= i < n && (#[trigger] cells[i]) is Some && i / 16 == bx.3
}

/// `bounds_upto` finds the bounding box of the pixels, or `None` where there
/// is none.
pub proof fn lemma_bounds_upto_is_box(cells: Seq<Option<Pixel>>, n: int)
    requires
        0 <= n <= 256,
    ensures
        match bounds_upto(cells, n) {
            None => forall|i: int| 0 <= i < n ==> (#[trigger] cells[i]) is None,
            Some(bx) => is_bounding_box(cells, n, bx),
        },
    decreases n,
{
    if n > 0 {
        lemma_bounds_upto_is_box(cells, n - 1);
        let i = n - 1;
        if cells[i] is Some {
            match bounds_upto(cells, n - 1) {
                None => {
                    assert(cells[i] is Some);
                },
                Some(bx) => {
                    let w0 = choose|k: int| 0 <= k < n - 1 && (#[trigger] cells[k]) is Some && k % 16 == bx.0;
                    let w1 = choose|k: int| 0 <= k < n - 1 && (#[trigger] cells[k]) is Some && k % 16 == bx.1;
                    let w2 = choose|k: int| 0 <= k < n - 1 && (#[trigger] cells[k]) is Some && k / 16 == bx.2;
                    let w3 = choose|k: int| 0 <= k < n - 1 && (#[trigger] cells[k]) is Some && k / 16 == bx.3;
                    assert(cells[w0] is Some && cells[w1] is Some && cells[w2] is Some && cells[w3] is Some);
                    assert(cells[i] is Some);
                },
            }
        }
    }
}

/// A bounding box is unique.
pub proof fn lemma_bounding_box_unique(
    cells: Seq<Option<Pixel>>,
    n: int,
    b1: (int, int, int, int),
    b2: (int, int, int, int),
)
    requires
        is_bounding_box(cells, n, b1),
        is_bounding_box(cells, n, b2),
    ensures
        b1 == b2,
{
    let w0 = choose|k: int| 0 <= k < n && (#[trigger] cells[k]) is Some && k % 16 == b1.0;
    let v0 = choose|k: int| 0 <= k < n && (#[trigger] cells[k]) is Some && k % 16 == b2.0;
    let w1 = choose|k: int| 0 <= k < n && (#[trigger] cells[k]) is Some && k % 16 == b1.1;
    let v1 = choose|k: int| 0 <= k < n && (#[trigger] cells[k]) is Some && k % 16 == b2.1;
    let w2 = choose|k: int| 0 <= k < n && (#[trigger] cells[k]) is Some && k / 16 == b1.2;
    let v2 = choose|k: int| 0 <= k < n && (#[trigger] cells[k]) is Some && k / 16 == b2.2;
    let w3 = choose|k: int| 0 <= k < n && (#[trigger] cells[k]) is Some && k / 16 == b1.3;
    let v3 = choose|k: int| 0 <= k < n && (#[trigger] cells[k]) is Some && k / 16 == b2.3;
    assert(cells[w0] is Some && cells[v0] is Some && cells[w1] is Some && cells[v1] is Some);
    assert(cells[w2] is Some && cells[v2] is Some && cells[w3] is Some && cells[v3] is Some);
}

/// The centring shift of a bounding box keeps every pixel on the grid.
pub proof fn lemma_centering_stays_on_grid(cells: Seq<Option<Pixel>>, bx: (int, int, int, int))
    requires
        is_bounding_box(cells, 256, bx),
    ensures
        0 <= bx.0 <= bx.1 < 16,
        0 <= bx.2 <= bx.3 < 16,
        moves_within_grid(cells, centering_shift(bx.0, bx.1), centering_shift(bx.2, bx.3)),
{
    let w0 = choose|k: int| 0 <= k < 256 && (#[trigger] cells[k]) is Some && k % 16 == bx.0;
    let w1 = choose|k: int| 0 <= k < 256 && (#[trigger] cells[k]) is Some && k % 16 == bx.1;
    let w2 = choose|k: int| 0 <= k < 256 && (#[trigger] cells[k]) is Some && k / 16 == bx.2;
    let w3 = choose|k: int| 0 <= k < 256 && (#[trigger] cells[k]) is Some && k / 16 == bx.3;
    assert(cells[w0] is Some && cells[w1] is Some && cells[w2] is Some && cells[w3] is Some);
}

/// A pixel of `cells` reappears, moved by `(dx, dy)`, in a grid that holds
/// at each cell what the move brings there.
pub proof fn lemma_translated_pixel(
    cells: Seq<Option<Pixel>>,
    r: Seq<Option<Pixel>>,
    dx: int,
    dy: int,
    w: int,
)
    requires
        0 <= w < 256,
        on_grid(w % 16 + dx, w / 16 + dy),
        forall|j: int|
            0 <= j < 256 ==> #[trigger] r[j] == translated_source(cells, dx, dy, 256, j),
    ensures
        ({
            let j = cell_index(w % 16 + dx, w / 16 + dy);
            &&& 0 <= j < 256
            &&& j % 16 == w % 16 + dx
            &&& j / 16 == w / 16 + dy
            &&& r[j] == cells[w]
        }),
{
    let j = cell_index(w % 16 + dx, w / 16 + dy);
    assert(r[j] == translated_source(cells, dx, dy, 256, j));
    assert(cell_index(w % 16, w / 16) == w);
}

/// Moving every pixel by `(dx, dy)` moves the bounding box with them.
pub proof fn lemma_translated_box(
    cells: Seq<Option<Pixel>>,
    r: Seq<Option<Pixel>>,
    bx: (int, int, int, int),
    dx: int,
    dy: int,
)
    requires
        is_bounding_box(cells, 256, bx),
        moves_within_grid(cells, dx, dy),
        forall|j: int|
            0 <= j < 256 ==> #[trigger] r[j] == translated_source(cells, dx, dy, 256, j),
    ensures
        is_bounding_box(r, 256, (bx.0 + dx, bx.1 + dx, bx.2 + dy, bx.3 + dy)),
{
    let moved = (bx.0 + dx, bx.1 + dx, bx.2 + dy, bx.3 + dy);
    let w0 = choose|k: int| 0 <= k < 256 && (#[trigger] cells[k]) is Some && k % 16 == bx.0;
    let w1 = choose|k: int| 0 <= k < 256 && (#[trigger] cells[k]) is Some && k % 16 == bx.1;
    let w2 = choose|k: int| 0 <= k < 256 && (#[trigger] cells[k]) is Some && k / 16 == bx.2;
    let w3 = choose|k: int| 0 <= k < 256 && (#[trigger] cells[k]) is Some && k / 16 == bx.3;
    assert(cells[w0] is Some && cells[w1] is Some && cells[w2] is Some && cells[w3] is Some);
    lemma_translated_pixel(cells, r, dx, dy, w0);
    lemma_translated_pixel(cells, r, dx, dy, w1);
    lemma_translated_pixel(cells, r, dx, dy, w2);
    lemma_translated_pixel(cells, r, dx, dy, w3);
    let j0 = cell_index(w0 % 16 + dx, w0 / 16 + dy);
    let j1 = cell_index(w1 % 16 + dx, w1 / 16 + dy);
    let j2 = cell_index(w2 % 16 + dx, w2 / 16 + dy);
    let j3 = cell_index(w3 % 16 + dx, w3 / 16 + dy);
    assert(r[j0] is Some && r[j1] is Some && r[j2] is Some && r[j3] is Some);
    lemma_translated_within(cells, r, bx, dx, dy);
}

/// Every moved pixel lies within the moved bounding box.
pub proof fn lemma_translated_within(
    cells: Seq<Option<Pixel>>,
    r: Seq<Option<Pixel>>,
    bx: (int, int, int, int),
    dx: int,
    dy: int,
)
    requires
        forall|i: int|
            0 <= i < 256 && (#[trigger] cells[i]) is Some ==> bx.0 <= i % 16 <= bx.1 && bx.2 <= i
                / 16 <= bx.3,
        forall|j: int|
            0 <= j < 256 ==> #[trigger] r[j] == translated_source(cells, dx, dy, 256, j),
    ensures
        forall|j: int|
            0 <= j < 256 && (#[trigger] r[j]) is Some ==> bx.0 + dx <= j % 16 <= bx.1 + dx && bx.2
                + dy <= j / 16 <= bx.3 + dy,
{
    assert forall|j: int| 0 <= j < 256 && (#[trigger] r[j]) is Some implies bx.0 + dx <= j % 16
        <= bx.1 + dx && bx.2 + dy <= j / 16 <= bx.3 + dy by {
        assert(r[j] == translated_source(cells, dx, dy, 256, j));
        let i = cell_index(j % 16 - dx, j / 16 - dy);
        assert(cells[i] is Some);
        assert(i % 16 == j % 16 - dx && i / 16 == j / 16 - dy);
    }
}

/// Recentring a grid with pixels gives what a move by the centring shift
/// brings to each cell.
pub proof fn lemma_recenter_cells(cells: Seq<Option<Pixel>>, bx: (int, int, int, int))
    requires
        bounds_upto(cells, 256) == Some(bx),
        moves_within_grid(cells, centering_shift(bx.0, bx.1), centering_shift(bx.2, bx.3)),
    ensures
        forall|j: int|
            0 <= j < 256 ==> #[trigger] spec_recenter(cells)[j] == translated_source(
                cells,
                centering_shift(bx.0, bx.1),
                centering_shift(bx.2, bx.3),
                256,
                j,
            ),
{
    let dx = centering_shift(bx.0, bx.1);
    let dy = centering_shift(bx.2, bx.3);
    if dx == 0 && dy == 0 {
        assert forall|j: int| 0 <= j < 256 implies #[trigger] spec_recenter(cells)[j]
            == translated_source(cells, dx, dy, 256, j) by {
            assert(cell_index(j % 16, j / 16) == j);
        }
    } else {
        lemma_shift_is_translation(cells, dx, dy, 256);
    }
}

/// What recentring does: where there are pixels, every one moves by the
/// centring shift and stays on the grid, none is lost, and the bounding box
/// moves with them to the centre, so a second recentring changes nothing.
pub proof fn lemma_recenter_translates(cells: Seq<Option<Pixel>>)
    ensures
        spec_recenter(spec_recenter(cells)) == spec_recenter(cells),
        match bounds_upto(cells, 256) {
            None => spec_recenter(cells) == cells,
            Some((a, b, c, d)) => {
                let dx = centering_shift(a, b);
                let dy = centering_shift(c, d);
                &&& moves_within_grid(cells, dx, dy)
                &&& forall|j: int|
                    0 <= j < 256 ==> #[trigger] spec_recenter(cells)[j] == translated_source(
                        cells,
                        dx,
                        dy,
                        256,
                        j,
                    )
                &&& bounds_upto(spec_recenter(cells), 256) == Some(
                    (a + dx, b + dx, c + dy, d + dy),
                )
                &&& 15 <= (a + dx) + (b + dx) <= 16
                &&& 15 <= (c + dy) + (d + dy) <= 16
            },
        },
{
    lemma_bounds_upto_is_box(cells, 256);
    match bounds_upto(cells, 256) {
        None => {},
        Some(bx) => {
            let dx = centering_shift(bx.0, bx.1);
            let dy = centering_shift(bx.2, bx.3);
            lemma_centering_stays_on_grid(cells, bx);
            lemma_recenter_cells(cells, bx);
            let r = spec_recenter(cells);
            let moved = (bx.0 + dx, bx.1 + dx, bx.2 + dy, bx.3 + dy);
            lemma_translated_box(cells, r, bx, dx, dy);
            lemma_bounds_upto_is_box(r, 256);
            match bounds_upto(r, 256) {
                None => {
                    let w = choose|k: int| 0 <= k < 256 && (#[trigger] r[k]) is Some && k % 16 == moved.0;
                    assert(r[w] is Some);
                },
                Some(found) => {
                    lemma_bounding_box_unique(r, 256, found, moved);
                },
            }
            assert(centering_shift(moved.0, moved.1) == 0);
            assert(centering_shift(moved.2, moved.3) == 0);
        },
    }
}

} // verus!
