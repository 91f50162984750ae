//! The shape of a flower: which cells hold a pixel, and of which part. Every
//! drawing step makes the same shape and the same draws whatever colours it
//! is given.

use vstd::prelude::*;
use crate::flower::{
    chance_mirror, petals_upto, spec_add_stem, spec_blossom, spec_floating_blossom,
    spec_flower_variant, spec_variant_cells, stem_rows_upto, FlowerStyle,
};
use crate::grid::{
    bounds_upto, empty_cells, shifted_upto, spec_add_mirrored, spec_add_part, spec_recenter, Pixel,
    PixelPart,
};
use crate::palette::FlowerColorSet;

verus! {

/// Two grids of 256 cells with pixels in the same cells, of the same parts;
/// only colours may differ.
pub open spec fn same_shape(a: Seq<Option<Pixel>>, b: Seq<Option<Pixel>>) -> bool {
    &&& a.len() == 256
    &&& b.len() == 256
    &&& forall|i: int|
        0 <= i < 256 ==> ((#[trigger] a[i]) is Some <==> b[i] is Some) && (a[i] is Some
            ==> a[i]->0.part == b[i]->0.part)
}

pub proof fn lemma_add_part_shape(
    a: Seq<Option<Pixel>>,
    b: Seq<Option<Pixel>>,
    x: int,
    y: int,
    c1: [u8; 4],
    c2: [u8; 4],
    part: PixelPart,
)
    requires
        same_shape(a, b),
    ensures
        same_shape(spec_add_part(a, x, y, c1, part), spec_add_part(b, x, y, c2, part)),
{
    let a2 = spec_add_part(a, x, y, c1, part);
    let b2 = spec_add_part(b, x, y, c2, part);
    assert forall|i: int| 0 <= i < 256 implies ((#[trigger] a2[i]) is Some <==> b2[i] is Some) && (
    a2[i] is Some ==> a2[i]->0.part == b2[i]->0.part) by {
        assert(a[i] is Some <==> b[i] is Some);
    }
}

pub proof fn lemma_add_mirrored_shape(
    a: Seq<Option<Pixel>>,
    b: Seq<Option<Pixel>>,
    cx: int,
    cy: int,
    ox: int,
    oy: int,
    c1: [u8; 4],
    c2: [u8; 4],
)
    requires
        same_shape(a, b),
    ensures
        same_shape(spec_add_mirrored(a, cx, cy, ox, oy, c1), spec_add_mirrored(b, cx, cy, ox, oy, c2)),
{
    lemma_add_part_shape(a, b, cx + ox, cy + oy, c1, c2, PixelPart::Flower);
    lemma_add_part_shape(
        spec_add_part(a, cx + ox, cy + oy, c1, PixelPart::Flower),
        spec_add_part(b, cx + ox, cy + oy, c2, PixelPart::Flower),
        cx - ox,
        cy + oy,
        c1,
        c2,
        PixelPart::Flower,
    );
}

pub proof fn lemma_chance_mirror_shape(
    a: Seq<Option<Pixel>>,
    b: Seq<Option<Pixel>>,
    state: u32,
    percent: u64,
    cx: int,
    cy: int,
    ox: int,
    oy: int,
    c1: [u8; 4],
    c2: [u8; 4],
)
    requires
        same_shape(a, b),
    ensures
        same_shape(
            chance_mirror(a, state, percent, cx, cy, ox, oy, c1).0,
            chance_mirror(b, state, percent, cx, cy, ox, oy, c2).0,
        ),
        chance_mirror(a, state, percent, cx, cy, ox, oy, c1).1 == chance_mirror(
            b,
            state,
            percent,
            cx,
            cy,
            ox,
            oy,
            c2,
        ).1,
{
    lemma_add_mirrored_shape(a, b, cx, cy, ox, oy, c1, c2);
}

pub proof fn lemma_petals_shape(
    a: Seq<Option<Pixel>>,
    b: Seq<Option<Pixel>>,
    state: u32,
    cy: int,
    p1: [[u8; 4]; 3],
    p2: [[u8; 4]; 3],
    k: int,
)
    requires
        same_shape(a, b),
    ensures
        same_shape(petals_upto(a, state, cy, p1, k).0, petals_upto(b, state, cy, p2, k).0),
        petals_upto(a, state, cy, p1, k).1 == petals_upto(b, state, cy, p2, k).1,
    decreases k,
{
    if k > 0 {
        lemma_petals_shape(a, b, state, cy, p1, p2, k - 1);
        let pa = petals_upto(a, state, cy, p1, k - 1);
        let pb = petals_upto(b, state, cy, p2, k - 1);
        let offset = crate::flower::PETAL_SHAPE[k - 1];
        let ca = crate::flower::petal_color(pa.1, offset.0 as int, offset.1 as int, p1);
        let cb = crate::flower::petal_color(pb.1, offset.0 as int, offset.1 as int, p2);
        lemma_add_mirrored_shape(pa.0, pb.0, 8, cy, offset.0 as int, offset.1 as int, ca.0, cb.0);
    }
}

pub proof fn lemma_variant_shape(
    a: Seq<Option<Pixel>>,
    b: Seq<Option<Pixel>>,
    state: u32,
    cx: int,
    cy: int,
    p1: [[u8; 4]; 3],
    p2: [[u8; 4]; 3],
    variant: int,
)
    requires
        same_shape(a, b),
    ensures
        same_shape(
            spec_flower_variant(a, state, cx, cy, p1, variant).0,
            spec_flower_variant(b, state, cx, cy, p2, variant).0,
        ),
        spec_flower_variant(a, state, cx, cy, p1, variant).1 == spec_flower_variant(
            b,
            state,
            cx,
            cy,
            p2,
            variant,
        ).1,
{
    let v = variant % 5;
    let (o1, o2, o3, o4, k1, k2, k3, k4): (
        (int, int),
        (int, int),
        (int, int),
        (int, int),
        int,
        int,
        int,
        int,
    ) = if v == 0 {
        ((3, -1), (3, 0), (3, 1), (2, 2), 0, 1, 0, 1)
    } else if v == 1 {
        ((0, -4), (1, -4), (0, 3), (1, 3), 1, 1, 0, 1)
    } else if v == 2 {
        ((4, 0), (4, 1), (3, -2), (3, 2), 1, 1, 0, 0)
    } else if v == 3 {
        ((1, -3), (2, -2), (2, 1), (1, 2), 2, 2, 2, 2)
    } else {
        ((2, -3), (3, -2), (3, 2), (0, 0), 1, 0, 1, 0)
    };
    let a1 = spec_add_mirrored(a, cx, cy, o1.0, o1.1, p1[k1]);
    let b1 = spec_add_mirrored(b, cx, cy, o1.0, o1.1, p2[k1]);
    lemma_add_mirrored_shape(a, b, cx, cy, o1.0, o1.1, p1[k1], p2[k1]);
    let a2 = spec_add_mirrored(a1, cx, cy, o2.0, o2.1, p1[k2]);
    let b2 = spec_add_mirrored(b1, cx, cy, o2.0, o2.1, p2[k2]);
    lemma_add_mirrored_shape(a1, b1, cx, cy, o2.0, o2.1, p1[k2], p2[k2]);
    let a3 = spec_add_mirrored(a2, cx, cy, o3.0, o3.1, p1[k3]);
    let b3 = spec_add_mirrored(b2, cx, cy, o3.0, o3.1, p2[k3]);
    lemma_add_mirrored_shape(a2, b2, cx, cy, o3.0, o3.1, p1[k3], p2[k3]);
    if v < 4 {
        lemma_add_mirrored_shape(a3, b3, cx, cy, o4.0, o4.1, p1[k4], p2[k4]);
    } else {
        let x = if crate::random::chance_from(state, 50) {
            cx - 1
        } else {
            cx + 1
        };
        lemma_add_part_shape(a3, b3, x, cy + 3, p1[0], p2[0], PixelPart::Flower);
    }
}

pub proof fn lemma_floating_blossom_shape(
    a: Seq<Option<Pixel>>,
    b: Seq<Option<Pixel>>,
    state: u32,
    cy: int,
    p1: [[u8; 4]; 3],
    p2: [[u8; 4]; 3],
)
    requires
        same_shape(a, b),
    ensures
        same_shape(spec_floating_blossom(a, state, cy, p1).0, spec_floating_blossom(b, state, cy, p2).0),
        spec_floating_blossom(a, state, cy, p1).1 == spec_floating_blossom(b, state, cy, p2).1,
{
    let blossom = crate::random::index_from(state, 5);
    let s = crate::random::advance(state);
    lemma_variant_shape(a, b, s, 8, cy, p1, p2, blossom);
    let va = spec_flower_variant(a, s, 8, cy, p1, blossom);
    let vb = spec_flower_variant(b, s, 8, cy, p2, blossom);
    lemma_chance_mirror_shape(va.0, vb.0, va.1, 55, 8, cy, 2, -3, p1[1], p2[1]);
    let ma = chance_mirror(va.0, va.1, 55, 8, cy, 2, -3, p1[1]);
    let mb = chance_mirror(vb.0, vb.1, 55, 8, cy, 2, -3, p2[1]);
    lemma_chance_mirror_shape(ma.0, mb.0, ma.1, 60, 8, cy, 3, -1, p1[2], p2[2]);
    let na = chance_mirror(ma.0, ma.1, 60, 8, cy, 3, -1, p1[2]);
    let nb = chance_mirror(mb.0, mb.1, 60, 8, cy, 3, -1, p2[2]);
    lemma_chance_mirror_shape(na.0, nb.0, na.1, 65, 8, cy, 2, 3, p1[1], p2[1]);
    let oa = chance_mirror(na.0, na.1, 65, 8, cy, 2, 3, p1[1]);
    let ob = chance_mirror(nb.0, nb.1, 65, 8, cy, 2, 3, p2[1]);
    lemma_chance_mirror_shape(oa.0, ob.0, oa.1, 70, 8, cy, 4, 0, p1[1], p2[1]);
}

pub proof fn lemma_blossom_shape(
    state: u32,
    cy: int,
    include_stem: bool,
    c1: FlowerColorSet,
    c2: FlowerColorSet,
)
    ensures
        same_shape(spec_blossom(state, cy, include_stem, c1).0, spec_blossom(state, cy, include_stem, c2).0),
        spec_blossom(state, cy, include_stem, c1).1 == spec_blossom(state, cy, include_stem, c2).1,
{
    let p1 = c1.palette;
    let p2 = c2.palette;
    lemma_petals_shape(empty_cells(), empty_cells(), state, cy, p1, p2, 14);
    let pa = petals_upto(empty_cells(), state, cy, p1, 14);
    let pb = petals_upto(empty_cells(), state, cy, p2, 14);
    lemma_chance_mirror_shape(pa.0, pb.0, pa.1, 45, 8, cy, 3, 0, p1[1], p2[1]);
    let aa = chance_mirror(pa.0, pa.1, 45, 8, cy, 3, 0, p1[1]);
    let ab = chance_mirror(pb.0, pb.1, 45, 8, cy, 3, 0, p2[1]);
    lemma_chance_mirror_shape(aa.0, ab.0, aa.1, 50, 8, cy, 1, -4, p1[1], p2[1]);
    let ba = chance_mirror(aa.0, aa.1, 50, 8, cy, 1, -4, p1[1]);
    let bb = chance_mirror(ab.0, ab.1, 50, 8, cy, 1, -4, p2[1]);
    lemma_chance_mirror_shape(ba.0, bb.0, ba.1, 55, 8, cy, 3, 1, p1[0], p2[0]);
    let ca = chance_mirror(ba.0, ba.1, 55, 8, cy, 3, 1, p1[0]);
    let cb = chance_mirror(bb.0, bb.1, 55, 8, cy, 3, 1, p2[0]);
    lemma_chance_mirror_shape(ca.0, cb.0, ca.1, 60, 8, cy, 1, 3, p1[1], p2[1]);
    let da = chance_mirror(ca.0, ca.1, 60, 8, cy, 1, 3, p1[1]);
    let db = chance_mirror(cb.0, cb.1, 60, 8, cy, 1, 3, p2[1]);
    let (ea, eb) = if include_stem {
        (da, db)
    } else {
        lemma_floating_blossom_shape(da.0, db.0, da.1, cy, p1, p2);
        (spec_floating_blossom(da.0, da.1, cy, p1), spec_floating_blossom(db.0, db.1, cy, p2))
    };
    let k1 = c1.center_color;
    let k2 = c2.center_color;
    lemma_add_part_shape(ea.0, eb.0, 8, cy, k1, k2, PixelPart::Flower);
    let f1a = spec_add_part(ea.0, 8, cy, k1, PixelPart::Flower);
    let f1b = spec_add_part(eb.0, 8, cy, k2, PixelPart::Flower);
    lemma_add_part_shape(f1a, f1b, 7, cy, k1, k2, PixelPart::Flower);
    let f2a = spec_add_part(f1a, 7, cy, k1, PixelPart::Flower);
    let f2b = spec_add_part(f1b, 7, cy, k2, PixelPart::Flower);
    lemma_add_part_shape(f2a, f2b, 8, cy - 1, k1, k2, PixelPart::Flower);
    let f3a = spec_add_part(f2a, 8, cy - 1, k1, PixelPart::Flower);
    let f3b = spec_add_part(f2b, 8, cy - 1, k2, PixelPart::Flower);
    lemma_add_part_shape(f3a, f3b, 7, cy - 1, k1, k2, PixelPart::Flower);
    let f4a = spec_add_part(f3a, 7, cy - 1, k1, PixelPart::Flower);
    let f4b = spec_add_part(f3b, 7, cy - 1, k2, PixelPart::Flower);
    lemma_add_part_shape(
        f4a,
        f4b,
        7,
        cy - 1,
        c1.center_highlight,
        c2.center_highlight,
        PixelPart::Flower,
    );
}

pub proof fn lemma_stem_rows_shape(
    a: Seq<Option<Pixel>>,
    b: Seq<Option<Pixel>>,
    state: u32,
    stem_x: int,
    cy: int,
    lean: int,
    c1: [u8; 4],
    c2: [u8; 4],
    n: int,
)
    requires
        same_shape(a, b),
    ensures
        same_shape(
            stem_rows_upto(a, state, stem_x, cy, lean, c1, n).0,
            stem_rows_upto(b, state, stem_x, cy, lean, c2, n).0,
        ),
        stem_rows_upto(a, state, stem_x, cy, lean, c1, n).1 == stem_rows_upto(
            b,
            state,
            stem_x,
            cy,
            lean,
            c2,
            n,
        ).1,
        stem_rows_upto(a, state, stem_x, cy, lean, c1, n).2 == stem_rows_upto(
            b,
            state,
            stem_x,
            cy,
            lean,
            c2,
            n,
        ).2,
    decreases n,
{
    if n > 0 {
        lemma_stem_rows_shape(a, b, state, stem_x, cy, lean, c1, c2, n - 1);
        let pa = stem_rows_upto(a, state, stem_x, cy, lean, c1, n - 1);
        let pb = stem_rows_upto(b, state, stem_x, cy, lean, c2, n - 1);
        let y = cy + 2 + (n - 1);
        let x = stem_rows_upto(a, state, stem_x, cy, lean, c1, n).2;
        lemma_add_part_shape(pa.0, pb.0, x, y, c1, c2, PixelPart::Stem);
    }
}

pub proof fn lemma_stem_shape(
    a: Seq<Option<Pixel>>,
    b: Seq<Option<Pixel>>,
    state: u32,
    cx: int,
    cy: int,
    lean: int,
    s1: [u8; 4],
    l1: [u8; 4],
    s2: [u8; 4],
    l2: [u8; 4],
)
    requires
        same_shape(a, b),
    ensures
        same_shape(
            spec_add_stem(a, state, cx, cy, lean, s1, l1).0,
            spec_add_stem(b, state, cx, cy, lean, s2, l2).0,
        ),
{
    lemma_stem_rows_shape(a, b, state, cx, cy, lean, s1, s2, 13 - cy);
    let ra = stem_rows_upto(a, state, cx, cy, lean, s1, 13 - cy);
    let rb = stem_rows_upto(b, state, cx, cy, lean, s2, 13 - cy);
    let sx = ra.2;
    let leaf_y = cy + 5 + crate::random::index_from(ra.1, 3);
    let st2 = crate::random::advance(ra.1);
    let dir = if crate::random::chance_from(st2, 50) {
        1int
    } else {
        -1int
    };
    let st3 = crate::random::advance(st2);
    lemma_add_part_shape(ra.0, rb.0, sx + dir, leaf_y, l1, l2, PixelPart::Stem);
    let a1 = spec_add_part(ra.0, sx + dir, leaf_y, l1, PixelPart::Stem);
    let b1 = spec_add_part(rb.0, sx + dir, leaf_y, l2, PixelPart::Stem);
    lemma_add_part_shape(a1, b1, sx + dir * 2, leaf_y - 1, l1, l2, PixelPart::Stem);
    let a2 = spec_add_part(a1, sx + dir * 2, leaf_y - 1, l1, PixelPart::Stem);
    let b2 = spec_add_part(b1, sx + dir * 2, leaf_y - 1, l2, PixelPart::Stem);
    lemma_add_part_shape(a2, b2, sx + dir * 2, leaf_y, l1, l2, PixelPart::Stem);
    let a3 = spec_add_part(a2, sx + dir * 2, leaf_y, l1, PixelPart::Stem);
    let b3 = spec_add_part(b2, sx + dir * 2, leaf_y, l2, PixelPart::Stem);
    let oy = if leaf_y + 2 < 13 {
        leaf_y + 2
    } else {
        13
    };
    let (a4, b4) = if crate::random::chance_from(st3, 45) {
        lemma_add_part_shape(a3, b3, sx - dir, oy, l1, l2, PixelPart::Stem);
        let a35 = spec_add_part(a3, sx - dir, oy, l1, PixelPart::Stem);
        let b35 = spec_add_part(b3, sx - dir, oy, l2, PixelPart::Stem);
        lemma_add_part_shape(a35, b35, sx - dir * 2, oy - 1, l1, l2, PixelPart::Stem);
        (
            spec_add_part(a35, sx - dir * 2, oy - 1, l1, PixelPart::Stem),
            spec_add_part(b35, sx - dir * 2, oy - 1, l2, PixelPart::Stem),
        )
    } else {
        (a3, b3)
    };
    lemma_add_part_shape(a4, b4, sx - 1, 15, s1, s2, PixelPart::Base);
    let a5 = spec_add_part(a4, sx - 1, 15, s1, PixelPart::Base);
    let b5 = spec_add_part(b4, sx - 1, 15, s2, PixelPart::Base);
    lemma_add_part_shape(a5, b5, sx, 15, s1, s2, PixelPart::Base);
    let a6 = spec_add_part(a5, sx, 15, s1, PixelPart::Base);
    let b6 = spec_add_part(b5, sx, 15, s2, PixelPart::Base);
    lemma_add_part_shape(a6, b6, sx + 1, 15, s1, s2, PixelPart::Base);
}

pub proof fn lemma_bounds_shape(a: Seq<Option<Pixel>>, b: Seq<Option<Pixel>>, n: int)
    requires
        same_shape(a, b),
        n <= 256,
    ensures
        bounds_upto(a, n) == bounds_upto(b, n),
    decreases n,
{
    if n > 0 {
        lemma_bounds_shape(a, b, n - 1);
        assert(a[n - 1] is Some <==> b[n - 1] is Some);
    }
}

pub proof fn lemma_shifted_shape(
    a: Seq<Option<Pixel>>,
    b: Seq<Option<Pixel>>,
    dx: int,
    dy: int,
    n: int,
)
    requires
        same_shape(a, b),
        n <= 256,
    ensures
        same_shape(shifted_upto(a, dx, dy, n), shifted_upto(b, dx, dy, n)),
    decreases n,
{
    if n <= 0 {
        assert(same_shape(empty_cells(), empty_cells()));
    } else {
        lemma_shifted_shape(a, b, dx, dy, n - 1);
        let pa = shifted_upto(a, dx, dy, n - 1);
        let pb = shifted_upto(b, dx, dy, n - 1);
        let i = n - 1;
        assert(a[i] is Some <==> b[i] is Some);
        let t = crate::grid::cell_index(
            crate::grid::clamp_to_grid(i % 16 + dx),
            crate::grid::clamp_to_grid(i / 16 + dy),
        );
        let na = shifted_upto(a, dx, dy, n);
        let nb = shifted_upto(b, dx, dy, n);
        if a[i] is Some {
            assert(0 <= t < 256);
            assert forall|j: int| 0 <= j < 256 implies ((#[trigger] na[j]) is Some <==> nb[j] is Some)
                && (na[j] is Some ==> na[j]->0.part == nb[j]->0.part) by {
                assert(pa[j] is Some <==> pb[j] is Some);
            }
        }
    }
}

pub proof fn lemma_recenter_shape(a: Seq<Option<Pixel>>, b: Seq<Option<Pixel>>)
    requires
        same_shape(a, b),
    ensures
        same_shape(spec_recenter(a), spec_recenter(b)),
{
    lemma_bounds_shape(a, b, 256);
    match bounds_upto(a, 256) {
        None => {},
        Some((x0, x1, y0, y1)) => {
            let dx = crate::grid::centering_shift(x0, x1);
            let dy = crate::grid::centering_shift(y0, y1);
            lemma_shifted_shape(a, b, dx, dy, 256);
        },
    }
}

/// The cells of a flower variant have one shape whatever the night and HDR
/// switches.
pub proof fn lemma_variant_cells_shape(
    seed: Seq<char>,
    style: FlowerStyle,
    v: u8,
    night1: bool,
    hdr1: bool,
    night2: bool,
    hdr2: bool,
)
    ensures
        same_shape(
            spec_variant_cells(seed, style, v, night1, hdr1),
            spec_variant_cells(seed, style, v, night2, hdr2),
        ),
{
    let include_stem = style == FlowerStyle::FlowerWithStem;
    let c1 = crate::palette::spec_pick_colors(crate::random::seed_state(seed), night1, hdr1);
    let c2 = crate::palette::spec_pick_colors(crate::random::seed_state(seed), night2, hdr2);
    let s0 = crate::random::seed_state(crate::flower::variation_seed(seed, v));
    let cy = if include_stem {
        6 + crate::random::index_from(s0, 2)
    } else {
        8
    };
    let s1 = if include_stem {
        crate::random::advance(s0)
    } else {
        s0
    };
    let lean = if crate::random::chance_from(s1, 50) {
        1int
    } else {
        -1int
    };
    let st = crate::random::advance(s1);
    lemma_blossom_shape(st, cy, include_stem, c1, c2);
    let ba = spec_blossom(st, cy, include_stem, c1);
    let bb = spec_blossom(st, cy, include_stem, c2);
    if include_stem {
        lemma_stem_shape(ba.0, bb.0, ba.1, 8, cy, lean, c1.stem_color, c1.leaf_color, c2.stem_color, c2.leaf_color);
    } else {
        lemma_recenter_shape(ba.0, bb.0);
    }
}

} // verus!
