use vstd::prelude::*;

verus! {

/// A point in world space, in pixels.
#[derive(Clone, Copy, Debug, PartialEq, Eq, Structural)]
pub struct Vec2 {
    pub x: i64,
    pub y: i64,
}

/// An axis-aligned rectangle in world space: top-left corner and extent, in pixels.
#[derive(Clone, Copy, Debug, PartialEq, Eq, Structural)]
pub struct Rect {
    pub x: i64,
    pub y: i64,
    pub width: i64,
    pub height: i64,
}

impl Vec2 {
    pub fn new(x: i64, y: i64) -> (r: Vec2)
        ensures
            r.x == x,
            r.y == y,
    {
        Vec2 { x, y }
    }
}

impl Rect {
    pub fn new(x: i64, y: i64, width: i64, height: i64) -> (r: Rect)
        ensures
            r.x == x,
            r.y == y,
            r.width == width,
            r.height == height,
    {
        Rect { x, y, width, height }
    }

    /// Two rectangles overlap when their interiors intersect on both axes;
    /// rectangles that only touch along an edge do not overlap.
    pub open spec fn overlaps_spec(self, other: Rect) -> bool {
        &&& self.x < other.x + other.width
        &&& self.x + self.width > other.x
        &&& self.y < other.y + other.height
        &&& self.y + self.height > other.y
    }

    pub fn overlaps(&self, other: &Rect) -> (r: bool)
        ensures
            r == self.overlaps_spec(*other),
    {
        let (ax, ay, aw, ah) = (self.x as i128, self.y as i128, self.width as i128, self.height as i128);
        let (bx, by, bw, bh) = (other.x as i128, other.y as i128, other.width as i128, other.height as i128);
        ax < bx + bw && ax + aw > bx && ay < by + bh && ay + ah > by
    }
}


/// Width of one tile image, in texture pixels.
pub const TILE_WIDTH: i32 = 32;
/// Height of one tile image, in texture pixels.
pub const TILE_HEIGHT: i32 = 32;
/// Factor from texture pixels to world pixels.
pub const SCALE: i32 = 2;
/// World width of one grid cell: `TILE_WIDTH * SCALE`.
pub const CELL_WIDTH: i64 = 64;
/// World height of one grid cell: `TILE_HEIGHT * SCALE`.
pub const CELL_HEIGHT: i64 = 64;

/// The world-space top-left corner of grid cell `(x, y)`.
pub open spec fn cell_origin(x: int, y: int) -> Vec2 {
    Vec2 { x: (x * CELL_WIDTH) as i64, y: (y * CELL_HEIGHT) as i64 }
}

/// Whether the bounds of grid cell `(x, y)` overlap `r`.
pub open spec fn cell_overlaps(x: int, y: int, r: Rect) -> bool {
    &&& x * CELL_WIDTH < r.x + r.width
    &&& x * CELL_WIDTH + CELL_WIDTH > r.x
    &&& y * CELL_HEIGHT < r.y + r.height
    &&& y * CELL_HEIGHT + CELL_HEIGHT > r.y
}

/// The bounds of grid cell `(x, y)`.
pub fn cell_rect(x: usize, y: usize) -> (r: Rect)
    requires
        x <= i32::MAX,
        y <= i32::MAX,
    ensures
        r.x == x * CELL_WIDTH,
        r.y == y * CELL_HEIGHT,
        r.width == CELL_WIDTH,
        r.height == CELL_HEIGHT,
        forall|o: Rect| r.overlaps_spec(o) == cell_overlaps(x as int, y as int, o),
{
    Rect { x: x as i64 * CELL_WIDTH, y: y as i64 * CELL_HEIGHT, width: CELL_WIDTH, height: CELL_HEIGHT }
}

} // verus!
