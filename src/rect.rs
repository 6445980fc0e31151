//! The rectangle of tiles that covers an area at one zoom level.

use crate::tile::{side, lemma_side_bound, TileIndex, MAX_ZOOM};
use vstd::prelude::*;

verus! {

/// The smaller of two indices.
pub open spec fn min_u32(a: u32, b: u32) -> u32 {
    if a <= b {
        a
    } else {
        b
    }
}

/// The larger of two indices.
pub open spec fn max_u32(a: u32, b: u32) -> u32 {
    if a <= b {
        b
    } else {
        a
    }
}

/// The tiles `min_x..=max_x` by `min_y..=max_y` at one zoom level.
#[derive(Clone, Copy, Debug, PartialEq, Eq, Structural)]
pub struct TileRect {
    pub zoom: u32,
    pub min_x: u32,
    pub max_x: u32,
    pub min_y: u32,
    pub max_y: u32,
}

/// The rectangle spanned by two corners, each axis ordered on its own.
pub open spec fn corners_rect(a: TileIndex, b: TileIndex) -> TileRect {
    TileRect {
        zoom: a.zoom,
        min_x: min_u32(a.x, b.x),
        max_x: max_u32(a.x, b.x),
        min_y: min_u32(a.y, b.y),
        max_y: max_u32(a.y, b.y),
    }
}

impl TileRect {
    /// Both ranges are ordered and lie on the grid of a supported zoom level.
    pub open spec fn wf(&self) -> bool {
        &&& self.zoom <= MAX_ZOOM
        &&& self.min_x <= self.max_x < side(self.zoom as nat)
        &&& self.min_y <= self.max_y < side(self.zoom as nat)
    }

    pub open spec fn width_spec(&self) -> nat {
        (self.max_x - self.min_x + 1) as nat
    }

    pub open spec fn height_spec(&self) -> nat {
        (self.max_y - self.min_y + 1) as nat
    }

    /// Number of tiles in the rectangle.
    pub open spec fn count_spec(&self) -> nat {
        self.width_spec() * self.height_spec()
    }

    /// Whether `t` is one of the rectangle's tiles.
    pub open spec fn contains(&self, t: TileIndex) -> bool {
        &&& t.zoom == self.zoom
        &&& self.min_x <= t.x <= self.max_x
        &&& self.min_y <= t.y <= self.max_y
    }

    /// The `i`-th tile, columns outermost: column `min_x` from `min_y` to
    /// `max_y`, then the next column.
    pub open spec fn tile_at_spec(&self, i: int) -> TileIndex {
        TileIndex {
            zoom: self.zoom,
            x: (self.min_x + i / self.height_spec() as int) as u32,
            y: (self.min_y + i % self.height_spec() as int) as u32,
        }
    }

    /// The rectangle spanned by two corner tiles of one zoom level, each axis
    /// ordered on its own: the corner with the larger column need not be the
    /// one with the larger row.
    pub fn from_corners(a: TileIndex, b: TileIndex) -> (r: TileRect)
        requires
            a.wf(),
            b.wf(),
            a.zoom == b.zoom,
        ensures
            r.wf(),
            r == corners_rect(a, b),
            r.count_spec() >= 1,
            r.contains(a),
            r.contains(b),
    {
        let (min_x, max_x) = if a.x <= b.x {
            (a.x, b.x)
        } else {
            (b.x, a.x)
        };
        let (min_y, max_y) = if a.y <= b.y {
            (a.y, b.y)
        } else {
            (b.y, a.y)
        };
        let r = TileRect { zoom: a.zoom, min_x, max_x, min_y, max_y };
        assert(r.count_spec() >= 1) by (nonlinear_arith)
            requires
                r.width_spec() >= 1,
                r.height_spec() >= 1,
                r.count_spec() == r.width_spec() * r.height_spec(),
        ;
        r
    }

    /// Number of columns.
    pub fn width(&self) -> (w: u64)
        requires
            self.wf(),
        ensures
            w == self.width_spec(),
            1 <= w <= 0x8000_0000,
    {
        proof {
            lemma_side_bound(self.zoom as nat);
        }
        (self.max_x - self.min_x) as u64 + 1
    }

    /// Number of rows.
    pub fn height(&self) -> (h: u64)
        requires
            self.wf(),
        ensures
            h == self.height_spec(),
            1 <= h <= 0x8000_0000,
    {
        proof {
            lemma_side_bound(self.zoom as nat);
        }
        (self.max_y - self.min_y) as u64 + 1
    }

    /// Number of tiles in the rectangle.
    pub fn count(&self) -> (c: u64)
        requires
            self.wf(),
        ensures
            c == self.count_spec(),
            c >= 1,
    {
        let w = self.width();
        let h = self.height();
        assert(1 <= w * h <= 0x8000_0000 * 0x8000_0000) by (nonlinear_arith)
            requires
                1 <= w <= 0x8000_0000,
                1 <= h <= 0x8000_0000,
        ;
        w * h
    }

    /// The `i`-th tile, columns outermost.
    pub fn tile_at(&self, i: u64) -> (t: TileIndex)
        requires
            self.wf(),
            i < self.count_spec(),
        ensures
            t == self.tile_at_spec(i as int),
            t.wf(),
            self.contains(t),
    {
        let h = self.height();
        proof {
            lemma_tile_at_inside(*self, i as int);
        }
        let dx = (i / h) as u32;
        let dy = (i % h) as u32;
        TileIndex { zoom: self.zoom, x: self.min_x + dx, y: self.min_y + dy }
    }
}

/// Every position below the count names a tile of the rectangle.
pub proof fn lemma_tile_at_inside(r: TileRect, i: int)
    requires
        r.wf(),
        0 <= i < r.count_spec(),
    ensures
        r.contains(r.tile_at_spec(i)),
        r.tile_at_spec(i).wf(),
        r.min_x + i / r.height_spec() as int <= r.max_x,
        r.min_y + i % r.height_spec() as int <= r.max_y,
{
    let w = r.width_spec() as int;
    let h = r.height_spec() as int;
    assert(0 <= i / h < w) by (nonlinear_arith)
        requires
            h >= 1,
            0 <= i < w * h,
    ;
    assert(0 <= i % h < h) by (nonlinear_arith)
        requires
            h >= 1,
    ;
}

/// Each tile of the rectangle stands at exactly one position of the order
/// that `tile_at` gives: `(x - min_x) * height + (y - min_y)`.
pub proof fn lemma_tile_position(r: TileRect, t: TileIndex)
    requires
        r.wf(),
        r.contains(t),
    ensures
        0 <= (t.x - r.min_x) * r.height_spec() + (t.y - r.min_y) < r.count_spec(),
        r.tile_at_spec((t.x - r.min_x) * r.height_spec() + (t.y - r.min_y)) == t,
{
    let w = r.width_spec() as int;
    let h = r.height_spec() as int;
    let dx = t.x - r.min_x;
    let dy = t.y - r.min_y;
    let i = dx * h + dy;
    assert(0 <= i < w * h) by (nonlinear_arith)
        requires
            0 <= dx < w,
            0 <= dy < h,
            i == dx * h + dy,
    ;
    assert(i / h == dx && i % h == dy) by (nonlinear_arith)
        requires
            0 <= dx,
            0 <= dy < h,
            i == dx * h + dy,
    ;
}

/// Two different positions of the order give two different tiles.
pub proof fn lemma_tile_at_injective(r: TileRect, i: int, j: int)
    requires
        r.wf(),
        0 <= i < r.count_spec(),
        0 <= j < r.count_spec(),
        i != j,
    ensures
        r.tile_at_spec(i) != r.tile_at_spec(j),
{
    let h = r.height_spec() as int;
    lemma_tile_at_inside(r, i);
    lemma_tile_at_inside(r, j);
    assert(i == (i / h) * h + i % h && j == (j / h) * h + j % h) by (nonlinear_arith)
        requires
            h >= 1,
    ;
}

} // verus!
