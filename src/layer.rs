use vstd::prelude::*;

use crate::geometry::{Rect, Vec2, cell_overlaps, cell_origin, cell_rect};
use crate::tile::{Tile, TileView, new_empty, static_view};

verus! {

/// One full grid of tiles, addressed as `tiles[x][y]`.
#[derive(Debug)]
pub struct TiledMapLayer {
    tiles: Vec<Vec<Tile>>,
}

/// The models of a hit list.
pub open spec fn hits_view(v: Seq<(Tile, Vec2)>) -> Seq<(TileView, Vec2)> {
    v.map_values(|p: (Tile, Vec2)| (p.0@, p.1))
}

/// The cells of column `x` among its first `y` that overlap `r`, in order, each with its origin.
pub open spec fn column_hits(col: Seq<TileView>, x: int, r: Rect, y: int) -> Seq<(TileView, Vec2)>
    decreases y,
{
    if y <= 0 {
        Seq::empty()
    } else {
        let prev = column_hits(col, x, r, y - 1);
        if cell_overlaps(x, y - 1, r) {
            prev.push((col[y - 1], cell_origin(x, y - 1)))
        } else {
            prev
        }
    }
}

/// The cells of the first `x` columns that overlap `r`, column by column.
pub open spec fn grid_hits(cells: Seq<Seq<TileView>>, r: Rect, x: int) -> Seq<(TileView, Vec2)>
    decreases x,
{
    if x <= 0 {
        Seq::empty()
    } else {
        grid_hits(cells, r, x - 1) + column_hits(cells[x - 1], x - 1, r, cells[x - 1].len() as int)
    }
}

/// Every cell of a grid that overlaps `r`, in scan order, paired with its origin.
pub open spec fn hits(cells: Seq<Seq<TileView>>, r: Rect) -> Seq<(TileView, Vec2)> {
    grid_hits(cells, r, cells.len() as int)
}

/// A grid of `w` columns of `h` cells, every one a valid tile.
pub open spec fn grid_wf(cells: Seq<Seq<TileView>>, w: int, h: int) -> bool {
    &&& cells.len() == w
    &&& 0 <= w <= i32::MAX
    &&& 0 <= h <= i32::MAX
    &&& forall|x: int| 0 <= x < w ==> #[trigger] cells[x].len() == h
    &&& forall|x: int, y: int| 0 <= x < w && 0 <= y < h ==> (#[trigger] cells[x][y]).wf()
}

/// Every tile of a grid advanced by one animation step.
pub open spec fn step_grid(cells: Seq<Seq<TileView>>) -> Seq<Seq<TileView>> {
    cells.map_values(|col: Seq<TileView>| col.map_values(|t: TileView| t.step()))
}

/// A cell that overlaps `r` is among the first `y` cells' hits of its column once `y` is past it.
proof fn lemma_column_hit_present(col: Seq<TileView>, x: int, r: Rect, y: int, k: int)
    requires
        0 <= y < k,
        cell_overlaps(x, y, r),
    ensures
        column_hits(col, x, r, k).contains((col[y], cell_origin(x, y))),
    decreases k,
{
    let prev = column_hits(col, x, r, k - 1);
    if y == k - 1 {
        assert(column_hits(col, x, r, k) == prev.push((col[y], cell_origin(x, y))));
        assert(prev.push((col[y], cell_origin(x, y)))[prev.len() as int] == (col[y], cell_origin(x, y)));
    } else {
        lemma_column_hit_present(col, x, r, y, k - 1);
        let i = choose|i: int| 0 <= i < prev.len() && prev[i] == (col[y], cell_origin(x, y));
        if cell_overlaps(x, k - 1, r) {
            assert(column_hits(col, x, r, k)[i] == prev[i]);
        }
    }
}

/// A cell that overlaps `r` is among the grid's hits of the first `k` columns once `k` is past it.
proof fn lemma_grid_hit_present(cells: Seq<Seq<TileView>>, r: Rect, x: int, y: int, k: int)
    requires
        0 <= x < k <= cells.len(),
        0 <= y < cells[x].len(),
        cell_overlaps(x, y, r),
    ensures
        grid_hits(cells, r, k).contains((cells[x][y], cell_origin(x, y))),
    decreases k,
{
    let e = (cells[x][y], cell_origin(x, y));
    let prev = grid_hits(cells, r, k - 1);
    let col = column_hits(cells[k - 1], k - 1, r, cells[k - 1].len() as int);
    assert(grid_hits(cells, r, k) == prev + col);
    if x == k - 1 {
        lemma_column_hit_present(cells[x], x, r, y, cells[x].len() as int);
        let i = choose|i: int| 0 <= i < col.len() && col[i] == e;
        assert((prev + col)[prev.len() + i] == e);
    } else {
        lemma_grid_hit_present(cells, r, x, y, k - 1);
        let i = choose|i: int| 0 <= i < prev.len() && prev[i] == e;
        assert((prev + col)[i] == e);
    }
}

/// Every cell whose bounds overlap `r` shows up in the grid's hit list for `r`.
pub proof fn lemma_hit_present(cells: Seq<Seq<TileView>>, r: Rect, x: int, y: int)
    requires
        0 <= x < cells.len(),
        0 <= y < cells[x].len(),
        cell_overlaps(x, y, r),
    ensures
        hits(cells, r).contains((cells[x][y], cell_origin(x, y))),
{
    lemma_grid_hit_present(cells, r, x, y, cells.len() as int);
}

/// Animation steps keep every tile valid and the grid's shape.
pub proof fn lemma_step_grid_wf(cells: Seq<Seq<TileView>>, w: int, h: int)
    requires
        grid_wf(cells, w, h),
    ensures
        grid_wf(step_grid(cells), w, h),
        forall|x: int, y: int| 0 <= x < w && 0 <= y < h ==> #[trigger] step_grid(cells)[x][y] == cells[x][y].step(),
{
    let s = step_grid(cells);
    assert forall|x: int| 0 <= x < w implies #[trigger] s[x].len() == h by {
        assert(cells[x].len() == h);
    }
    assert forall|x: int, y: int| 0 <= x < w && 0 <= y < h implies (#[trigger] s[x][y]).wf() && s[x][y] == cells[x][y].step() by {
        assert(cells[x][y].wf());
        assert(s[x] == cells[x].map_values(|t: TileView| t.step()));
    }
}

impl View for TiledMapLayer {
    type V = Seq<Seq<TileView>>;

    closed spec fn view(&self) -> Seq<Seq<TileView>> {
        self.tiles@.map_values(|col: Vec<Tile>| col@.map_values(|t: Tile| t@))
    }
}

impl TiledMapLayer {
    /// A `size_x` by `size_y` grid of empty static tiles.
    pub fn new(size_x: i32, size_y: i32) -> (r: Self)
        requires
            0 <= size_x,
            0 <= size_y,
        ensures
            grid_wf(r@, size_x as int, size_y as int),
            forall|x: int, y: int| 0 <= x < size_x && 0 <= y < size_y ==>
                #[trigger] r@[x][y] == static_view(0, Set::empty()),
    {
        let mut tiles: Vec<Vec<Tile>> = Vec::new();
        let mut x: i32 = 0;
        while x < size_x
            invariant
                0 <= x <= size_x,
                0 <= size_y,
                tiles@.len() == x,
                forall|i: int| 0 <= i < x ==> #[trigger] tiles@[i]@.len() == size_y,
                forall|i: int, j: int| 0 <= i < x && 0 <= j < size_y ==>
                    (#[trigger] tiles@[i]@[j])@ == static_view(0, Set::empty()),
            decreases size_x - x,
        {
            let mut col: Vec<Tile> = Vec::new();
            let mut y: i32 = 0;
            while y < size_y
                invariant
                    0 <= y <= size_y,
                    col@.len() == y,
                    forall|j: int| 0 <= j < y ==> (#[trigger] col@[j])@ == static_view(0, Set::empty()),
                decreases size_y - y,
            {
                col.push(new_empty());
                y += 1;
            }
            tiles.push(col);
            x += 1;
        }
        let r = TiledMapLayer { tiles };
        assert forall|x: int, y: int| 0 <= x < size_x && 0 <= y < size_y implies #[trigger] r@[x][y] == static_view(0, Set::empty()) && r@[x][y].wf() by {
            assert(r@[x] == r.tiles@[x]@.map_values(|t: Tile| t@));
        }
        r
    }

    /// The tile at `(x, y)`.
    pub fn tile(&self, x: usize, y: usize) -> (r: &Tile)
        requires
            0 <= x < self@.len(),
            0 <= y < self@[x as int].len(),
        ensures
            r@ == self@[x as int][y as int],
    {
        &self.tiles[x][y]
    }

    /// Replaces the tile at `(x, y)`.
    pub fn set_tile(&mut self, x: usize, y: usize, tile: Tile)
        requires
            0 <= x < old(self)@.len(),
            0 <= y < old(self)@[x as int].len(),
        ensures
            final(self)@ == old(self)@.update(x as int, old(self)@[x as int].update(y as int, tile@)),
    {
        let ghost before = self@;
        self.tiles[x][y] = tile;
        assert(self@ =~= before.update(x as int, before[x as int].update(y as int, tile@))) by {
            assert(self@[x as int] =~= before[x as int].update(y as int, tile@));
        }
    }

    /// Every cell whose bounds overlap `other`, in scan order (column by column),
    /// each paired with its world-space origin; `None` when no cell overlaps.
    pub fn get_collision_tiles(&self, other: &Rect) -> (r: Option<Vec<(Tile, Vec2)>>)
        requires
            grid_wf(self@, self@.len() as int, if self@.len() == 0 { 0 } else { self@[0].len() as int }),
        ensures
            match r {
                None => hits(self@, *other).len() == 0,
                Some(v) => v@.len() > 0 && hits_view(v@) == hits(self@, *other),
            },
    {
        let ghost cells = self@;
        let mut collisions: Vec<(Tile, Vec2)> = Vec::new();
        let width = self.tiles.len();
        let mut x: usize = 0;
        while x < width
            invariant
                cells == self@,
                width == cells.len(),
                grid_wf(cells, width as int, if width == 0 { 0 } else { cells[0].len() as int }),
                0 <= x <= width,
                hits_view(collisions@) == grid_hits(cells, *other, x as int),
            decreases width - x,
        {
            let height = self.tiles[x].len();
            assert(height == cells[x as int].len());
            let mut y: usize = 0;
            while y < height
                invariant
                    cells == self@,
                    width == cells.len(),
                    grid_wf(cells, width as int, if width == 0 { 0 } else { cells[0].len() as int }),
                    0 <= x < width,
                    height == cells[x as int].len(),
                    0 <= y <= height,
                    hits_view(collisions@) == grid_hits(cells, *other, x as int)
                        + column_hits(cells[x as int], x as int, *other, y as int),
                decreases height - y,
            {
                let cell = cell_rect(x, y);
                if cell.overlaps(other) {
                    let t = self.tiles[x][y].clone();
                    assert(t@ == cells[x as int][y as int]);
                    let ghost before = collisions@;
                    collisions.push((t, Vec2::new(cell.x, cell.y)));
                    proof {
                        assert(hits_view(collisions@) =~= hits_view(before).push((t@, cell_origin(x as int, y as int))));
                        assert(hits_view(collisions@) =~= grid_hits(cells, *other, x as int)
                            + column_hits(cells[x as int], x as int, *other, y + 1));
                    }
                }
                y += 1;
            }
            x += 1;
        }
        if collisions.len() == 0 {
            None
        } else {
            Some(collisions)
        }
    }
    /// Advances every tile of the layer by one animation step.
    pub fn advance_tiles(&mut self)
        requires
            grid_wf(old(self)@, old(self)@.len() as int, if old(self)@.len() == 0 { 0 } else { old(self)@[0].len() as int }),
        ensures
            final(self)@ == step_grid(old(self)@),
    {
        let ghost start = self@;
        let width = self.tiles.len();
        let mut x: usize = 0;
        while x < width
            invariant
                width == start.len(),
                grid_wf(start, width as int, if width == 0 { 0 } else { start[0].len() as int }),
                0 <= x <= width,
                self@.len() == width,
                forall|i: int| 0 <= i < x ==> #[trigger] self@[i] == step_grid(start)[i],
                forall|i: int| x <= i < width ==> #[trigger] self@[i] == start[i],
            decreases width - x,
        {
            let height = self.tiles[x].len();
            assert(height == start[x as int].len());
            let mut y: usize = 0;
            while y < height
                invariant
                    width == start.len(),
                    grid_wf(start, width as int, if width == 0 { 0 } else { start[0].len() as int }),
                    0 <= x < width,
                    height == start[x as int].len(),
                    0 <= y <= height,
                    self@.len() == width,
                    self@[x as int].len() == height,
                    forall|i: int| 0 <= i < x ==> #[trigger] self@[i] == step_grid(start)[i],
                    forall|i: int| x < i < width ==> #[trigger] self@[i] == start[i],
                    forall|j: int| 0 <= j < y ==> #[trigger] self@[x as int][j] == start[x as int][j].step(),
                    forall|j: int| y <= j < height ==> #[trigger] self@[x as int][j] == start[x as int][j],
                decreases height - y,
            {
                let ghost before = self@;
                assert(self@[x as int] == self.tiles@[x as int]@.map_values(|t: Tile| t@));
                assert(self@[x as int][y as int] == start[x as int][y as int]);
                assert(self.tiles@[x as int]@[y as int]@ == start[x as int][y as int]);
                self.tiles[x][y].advance();
                proof {
                    let now = self.tiles@[x as int]@[y as int]@;
                    assert(now == start[x as int][y as int].step());
                    assert(self@[x as int] =~= before[x as int].update(y as int, now));
                    assert(self@ =~= before.update(x as int, before[x as int].update(y as int, now)));
                }
                y += 1;
            }
            assert(self@[x as int] =~= step_grid(start)[x as int]);
            x += 1;
        }
        assert(self@ =~= step_grid(start));
    }
}

} // verus!
