//! Tile indices of the web-Mercator ("slippy map") scheme.

use vstd::prelude::*;

verus! {

/// The deepest zoom level whose grid side, `2^zoom`, still fits in a `u32`.
pub const MAX_ZOOM: u32 = 31;

/// Number of tiles along one side of the grid at zoom level `z`: `2^z`.
pub open spec fn side(z: nat) -> nat
    decreases z,
{
    if z == 0 {
        1
    } else {
        2 * side((z - 1) as nat)
    }
}

/// The grid side is positive and grows with the zoom level.
pub proof fn lemma_side_monotone(a: nat, b: nat)
    requires
        a <= b,
    ensures
        1 <= side(a) <= side(b),
    decreases b,
{
    if b > a {
        lemma_side_monotone(a, (b - 1) as nat);
    } else if a > 0 {
        lemma_side_monotone((a - 1) as nat, (a - 1) as nat);
    }
}

/// At the supported zoom levels the grid side fits in a `u32`.
pub proof fn lemma_side_bound(z: nat)
    requires
        z <= MAX_ZOOM,
    ensures
        1 <= side(z) <= 0x8000_0000,
{
    lemma_side_monotone(z, MAX_ZOOM as nat);
    reveal_with_fuel(side, 32);
    assert(side(31) == 0x8000_0000);
}

/// Number of tiles along one side of the grid at zoom level `zoom`.
pub fn tiles_per_side(zoom: u32) -> (n: u64)
    requires
        zoom <= MAX_ZOOM,
    ensures
        n == side(zoom as nat),
        1 <= n <= 0x8000_0000,
{
    let mut n: u64 = 1;
    let mut i: u32 = 0;
    while i < zoom
        invariant
            i <= zoom <= MAX_ZOOM,
            n == side(i as nat),
        decreases zoom - i,
    {
        proof {
            lemma_side_bound(i as nat);
        }
        n = n * 2;
        i = i + 1;
    }
    proof {
        lemma_side_bound(zoom as nat);
    }
    n
}

/// `v` moved into the range `[0, n)`: below it to `0`, above it to `n - 1`.
pub open spec fn clamp(v: int, n: int) -> int {
    if v < 0 {
        0
    } else if v >= n {
        n - 1
    } else {
        v
    }
}

/// A tile of the grid at one zoom level.
#[derive(Clone, Copy, Debug, PartialEq, Eq, Structural)]
pub struct TileIndex {
    pub zoom: u32,
    pub x: u32,
    pub y: u32,
}

impl TileIndex {
    /// The zoom level is supported and both indices lie on its grid.
    pub open spec fn wf(&self) -> bool {
        &&& self.zoom <= MAX_ZOOM
        &&& self.x < side(self.zoom as nat)
        &&& self.y < side(self.zoom as nat)
    }

    /// The tile at zoom level `zoom` whose column and row are the floored
    /// grid coordinates `gx` and `gy`, clamped onto the grid.
    ///
    /// The grid coordinates are `floor((lon + 180) / 360 * 2^zoom)` and
    /// `floor((1 - asinh(tan(lat)) / pi) / 2 * 2^zoom)`; a longitude of
    /// exactly 180 degrees, or a latitude near a pole, gives a coordinate just
    /// off the grid, which is clamped to the nearest tile.
    pub fn from_grid(zoom: u32, gx: i64, gy: i64) -> (t: TileIndex)
        requires
            zoom <= MAX_ZOOM,
        ensures
            t.wf(),
            t.zoom == zoom,
            t.x == clamp(gx as int, side(zoom as nat) as int),
            t.y == clamp(gy as int, side(zoom as nat) as int),
    {
        let n = tiles_per_side(zoom);
        TileIndex { zoom, x: grid_coordinate(n, gx), y: grid_coordinate(n, gy) }
    }
}

/// A floored grid coordinate clamped into `[0, n)`.
fn grid_coordinate(n: u64, v: i64) -> (r: u32)
    requires
        1 <= n <= 0x8000_0000,
    ensures
        r == clamp(v as int, n as int),
{
    if v < 0 {
        0
    } else if v as u64 >= n {
        (n - 1) as u32
    } else {
        v as u32
    }
}

} // verus!
