use vstd::prelude::*;

use rand::Rng;
use std::collections::HashMap;
use vstd::string::StrSliceExecFns;

use crate::geometry::{CELL_HEIGHT, CELL_WIDTH, Rect, Vec2, SCALE, TILE_HEIGHT, TILE_WIDTH};
use crate::maze::{MazeConfig, MazeError, next_significant, lemma_scan_error_stays, scan_error, significant};
use crate::layer::{TiledMapLayer, grid_wf, hits, hits_view, lemma_step_grid_wf, step_grid};
use crate::tile::{
    PALM_ID, STONE_ID, Tags, Tile, TileKind, TileView, TextureID, code_tile, falling_tile, falling_view, new_empty,
    new_palme, new_stone, new_water, static_view, tile_for_code,
};

verus! {

broadcast use vstd::std_specs::hash::group_hash_axioms;

/// Index of a texture in the caller's texture table; the map never owns textures.
pub type TextureHandle = usize;

/// Milliseconds of accumulated frame time between two animation steps.
pub const ANIMATION_STEP_MS: u32 = 300;

/// A stack of tile layers over one grid, with the texture bindings used to draw it.
pub struct TiledMap {
    pub tiles_textures: HashMap<TextureID, TextureHandle>,
    pub map: Vec<TiledMapLayer>,
    pub layers: i32,
    pub size_x: i32,
    pub size_y: i32,
    pub shift_x: i32,
    pub shift_y: i32,
    pub tile_width: i32,
    pub tile_height: i32,
    pub scale: i32,
    pub tiles_textures_paths: Vec<&'static str>,
    pub animation_counter: u32,
}

/// `cells` with the tile at `(l, x, y)` replaced by `t`.
pub open spec fn set_cell(cells: Seq<Seq<Seq<TileView>>>, l: int, x: int, y: int, t: TileView) -> Seq<Seq<Seq<TileView>>> {
    cells.update(l, cells[l].update(x, cells[l][x].update(y, t)))
}

/// Every tile of every layer advanced by one animation step.
pub open spec fn step_cells(cells: Seq<Seq<Seq<TileView>>>) -> Seq<Seq<Seq<TileView>>> {
    cells.map_values(|g: Seq<Seq<TileView>>| step_grid(g))
}

/// Looping water over frames `first .. first + 3`, blocking movement.
pub open spec fn water_view(first: TextureID) -> TileView {
    TileView {
        kind: TileKind::Animated,
        frames: seq![first, (first + 1) as i32, (first + 2) as i32, (first + 3) as i32],
        index: 0,
        tags: set![Tags::Barrier],
    }
}

/// The ground of a freshly made map: a sand square from cell 4 to cell 14 on both
/// axes, water around it.
pub open spec fn initial_ground(x: int, y: int) -> TileView {
    if 3 < x < 15 && 3 < y < 15 {
        static_view(1, Set::empty())
    } else {
        water_view(13)
    }
}

/// The object placed by one random draw: a palm, a stone, or nothing.
pub open spec fn random_object(kind: int) -> TileView {
    if kind == 0 {
        static_view(PALM_ID, set![Tags::Barrier, Tags::Destroyable])
    } else if kind == 1 {
        static_view(STONE_ID, set![Tags::Barrier, Tags::Destroyable])
    } else {
        static_view(0, Set::empty())
    }
}

/// Number of random objects scattered over a freshly made map.
pub const RANDOM_OBJECTS: u32 = 40;

/// Relies on rand's `Rng::random_range` on the thread-local generator: a value
/// drawn from `0..bound`. It panics on an empty range, which `requires` rules out.
#[verifier::external_body]
fn random_below(bound: i32) -> (r: i32)
    requires
        bound > 0,
    ensures
        0 <= r < bound,
{
    rand::rng().random_range(0..bound)
}

/// The tile that a layer string of a maze puts at `(x, y)` of a grid `w` cells wide.
pub open spec fn maze_tile(text: Seq<char>, w: int, x: int, y: int) -> TileView {
    code_tile(significant(text)[y * w + x]).unwrap()
}

/// The first problem of a maze description: in the ground string, else in the object string.
pub open spec fn maze_error(config: &MazeConfig) -> Option<MazeError> {
    let n = config.size.0 * config.size.1;
    match scan_error(significant(config.ground@), n, MazeError::GroundTooShort) {
        Some(e) => Some(e),
        None => scan_error(significant(config.objects@), n, MazeError::ObjectsTooShort),
    }
}

/// One draw request: a texture, where its top-left corner goes, and its scale.
#[derive(Clone, Copy, Debug, PartialEq, Eq, Structural)]
pub struct TileDraw {
    pub texture: TextureHandle,
    pub position: Vec2,
    pub scale: i32,
}

impl TiledMap {
    /// The tiles of every layer, as `cells()[layer][x][y]`.
    pub open spec fn cells(&self) -> Seq<Seq<Seq<TileView>>> {
        self.map@.map_values(|l: TiledMapLayer| l@)
    }

    /// The texture handle bound to each texture id.
    pub open spec fn textures(&self) -> Map<TextureID, TextureHandle> {
        self.tiles_textures@
    }

    /// Frame time accumulated since the last animation step, in milliseconds.
    pub open spec fn counter(&self) -> nat {
        self.animation_counter as nat
    }

    pub open spec fn wf(&self) -> bool {
        &&& 0 <= self.layers
        &&& self.cells().len() == self.layers
        &&& 0 <= self.size_x
        &&& 0 <= self.size_y
        &&& forall|l: int| 0 <= l < self.layers ==> grid_wf(#[trigger] self.cells()[l], self.size_x as int, self.size_y as int)
        &&& self.tile_width == TILE_WIDTH
        &&& self.tile_height == TILE_HEIGHT
        &&& self.scale == SCALE
        &&& self.counter() < ANIMATION_STEP_MS
    }

    /// Everything but the tiles is the same in `self` and `other`.
    pub open spec fn same_settings(&self, other: &TiledMap) -> bool {
        &&& self.layers == other.layers
        &&& self.size_x == other.size_x
        &&& self.size_y == other.size_y
        &&& self.shift_x == other.shift_x
        &&& self.shift_y == other.shift_y
        &&& self.tile_width == other.tile_width
        &&& self.tile_height == other.tile_height
        &&& self.scale == other.scale
        &&& self.tiles_textures_paths@ == other.tiles_textures_paths@
        &&& self.textures() == other.textures()
    }

    /// Whether `(layer, x, y)` addresses a cell of the map.
    pub open spec fn in_grid(&self, layer: int, x: int, y: int) -> bool {
        0 <= layer < self.layers && 0 <= x < self.size_x && 0 <= y < self.size_y
    }

    pub open spec fn tile_at(&self, layer: int, x: int, y: int) -> TileView {
        self.cells()[layer][x][y]
    }

    proof fn lemma_layer_view(&self, l: int)
        requires
            0 <= l < self.map@.len(),
        ensures
            self.cells()[l] == self.map@[l]@,
    {
    }

    /// Binds texture id `id` to a texture handle.
    pub fn add_tile_texture(&mut self, id: TextureID, texture: TextureHandle)
        ensures
            final(self).textures() == old(self).textures().insert(id, texture),
            final(self).cells() == old(self).cells(),
            final(self).counter() == old(self).counter(),
            final(self).layers == old(self).layers,
            final(self).size_x == old(self).size_x,
            final(self).size_y == old(self).size_y,
            final(self).shift_x == old(self).shift_x,
            final(self).shift_y == old(self).shift_y,
            final(self).tile_width == old(self).tile_width,
            final(self).tile_height == old(self).tile_height,
            final(self).scale == old(self).scale,
            final(self).tiles_textures_paths@ == old(self).tiles_textures_paths@,
    {
        self.tiles_textures.insert(id, texture);
    }

    /// Replaces the tile at `(layer, x, y)`; a cell outside the map is left alone.
    pub fn set_tile(&mut self, layer: i32, x: i32, y: i32, tile: Tile)
        requires
            old(self).wf(),
            tile@.wf(),
        ensures
            final(self).wf(),
            final(self).same_settings(old(self)),
            final(self).counter() == old(self).counter(),
            final(self).cells() == if old(self).in_grid(layer as int, x as int, y as int) {
                set_cell(old(self).cells(), layer as int, x as int, y as int, tile@)
            } else {
                old(self).cells()
            },
            forall|l: int, i: int, j: int| #[trigger] final(self).in_grid(l, i, j) ==>
                final(self).tile_at(l, i, j) == if l == layer && i == x && j == y { tile@ } else { old(self).tile_at(l, i, j) },
    {
        if layer < 0 || layer >= self.layers || x < 0 || x >= self.size_x || y < 0 || y >= self.size_y {
            return;
        }
        let ghost before = self.cells();
        let ghost tv = tile@;
        proof {
            self.lemma_layer_view(layer as int);
        }
        self.map[layer as usize].set_tile(x as usize, y as usize, tile);
        proof {
            assert(self.cells() =~= set_cell(before, layer as int, x as int, y as int, tv));
            assert forall|l: int| 0 <= l < self.layers implies grid_wf(#[trigger] self.cells()[l], self.size_x as int, self.size_y as int) by {
                if l != layer {
                    assert(self.cells()[l] == before[l]);
                } else {
                    assert(old(self).wf());
                    assert(grid_wf(before[l], self.size_x as int, self.size_y as int));
                    let g = self.cells()[l];
                    assert forall|i: int| 0 <= i < self.size_x implies #[trigger] g[i].len() == self.size_y by {
                        assert(before[l][i].len() == self.size_y);
                    }
                    assert forall|i: int, j: int| 0 <= i < self.size_x && 0 <= j < self.size_y implies (#[trigger] g[i][j]).wf() by {
                        assert(before[l][i][j].wf());
                    }
                }
            }
        }
    }

    /// The texture id of the tile at `(layer, x, y)` if it is static, the index of its
    /// current frame if it is animated; `None` outside the map.
    pub fn get_tile_id(&self, layer: i32, x: i32, y: i32) -> (r: Option<i32>)
        requires
            self.wf(),
        ensures
            r == if self.in_grid(layer as int, x as int, y as int) {
                let t = self.tile_at(layer as int, x as int, y as int);
                Some(if t.kind == crate::tile::TileKind::Static { t.texture() } else { t.index as i32 })
            } else {
                None::<i32>
            },
    {
        if layer < 0 || layer >= self.layers || x < 0 || x >= self.size_x || y < 0 || y >= self.size_y {
            return None;
        }
        proof {
            self.lemma_layer_view(layer as int);
            assert(grid_wf(self.cells()[layer as int], self.size_x as int, self.size_y as int));
        }
        let t = self.map[layer as usize].tile(x as usize, y as usize);
        match t {
            Tile::Static(id, _) => Some(*id),
            Tile::Animated(_, current, _) => Some(*current as i32),
            Tile::AnimatedOnce(_, current, _) => Some(*current as i32),
        }
    }

    /// A copy of the tile at `(layer, x, y)`; `None` outside the map.
    pub fn get_tile(&self, layer: i32, x: i32, y: i32) -> (r: Option<Tile>)
        requires
            self.wf(),
        ensures
            r.is_some() == self.in_grid(layer as int, x as int, y as int),
            r.is_some() ==> r.unwrap()@ == self.tile_at(layer as int, x as int, y as int),
    {
        if layer < 0 || layer >= self.layers || x < 0 || x >= self.size_x || y < 0 || y >= self.size_y {
            return None;
        }
        proof {
            self.lemma_layer_view(layer as int);
            assert(grid_wf(self.cells()[layer as int], self.size_x as int, self.size_y as int));
        }
        Some(self.map[layer as usize].tile(x as usize, y as usize).clone())
    }

    /// The texture handle bound to the frame now shown at `(layer, x, y)`; `None`
    /// outside the map or where that frame's id has no texture.
    pub fn get_tile_texture(&self, layer: i32, x: i32, y: i32) -> (r: Option<TextureHandle>)
        requires
            self.wf(),
        ensures
            r == if self.in_grid(layer as int, x as int, y as int) {
                let id = self.tile_at(layer as int, x as int, y as int).texture();
                if self.textures().contains_key(id) { Some(self.textures()[id]) } else { None::<TextureHandle> }
            } else {
                None::<TextureHandle>
            },
    {
        if layer < 0 || layer >= self.layers || x < 0 || x >= self.size_x || y < 0 || y >= self.size_y {
            return None;
        }
        proof {
            self.lemma_layer_view(layer as int);
            assert(grid_wf(self.cells()[layer as int], self.size_x as int, self.size_y as int));
        }
        let id = self.map[layer as usize].tile(x as usize, y as usize).texture_id();
        match self.tiles_textures.get(&id) {
            Some(h) => Some(*h),
            None => None,
        }
    }

    /// Every cell of `layer` whose bounds overlap `other`, with its world-space origin;
    /// `None` when none does or when there is no such layer.
    pub fn get_collision_tiles_with_layer(&self, layer: i32, other: &Rect) -> (r: Option<Vec<(Tile, Vec2)>>)
        requires
            self.wf(),
        ensures
            !(0 <= layer < self.layers) ==> r is None,
            0 <= layer < self.layers ==> match r {
                None => hits(self.cells()[layer as int], *other).len() == 0,
                Some(v) => v@.len() > 0 && hits_view(v@) == hits(self.cells()[layer as int], *other),
            },
    {
        if layer < 0 || layer >= self.layers {
            return None;
        }
        proof {
            self.lemma_layer_view(layer as int);
            assert(grid_wf(self.cells()[layer as int], self.size_x as int, self.size_y as int));
        }
        self.map[layer as usize].get_collision_tiles(other)
    }
    /// Advances the map's animation clock by `delta_ms`; once the clock reaches
    /// `ANIMATION_STEP_MS` it restarts from zero and every tile takes one step.
    pub fn update_animated_tiles(&mut self, delta_ms: u32)
        requires
            old(self).wf(),
        ensures
            final(self).wf(),
            final(self).same_settings(old(self)),
            old(self).counter() + delta_ms < ANIMATION_STEP_MS ==> {
                &&& final(self).cells() == old(self).cells()
                &&& final(self).counter() == old(self).counter() + delta_ms
            },
            old(self).counter() + delta_ms >= ANIMATION_STEP_MS ==> {
                &&& final(self).cells() == step_cells(old(self).cells())
                &&& final(self).counter() == 0
            },
    {
        let total: u64 = self.animation_counter as u64 + delta_ms as u64;
        if total < ANIMATION_STEP_MS as u64 {
            self.animation_counter = total as u32;
            return;
        }
        self.animation_counter = 0;
        let ghost start = self.cells();
        let n = self.map.len();
        let mut l: usize = 0;
        while l < n
            invariant
                n == start.len(),
                n == self.layers,
                self.same_settings(old(self)),
                self.counter() == 0,
                0 <= l <= n,
                self.cells().len() == n,
                old(self).wf(),
                start == old(self).cells(),
                forall|i: int| 0 <= i < l ==> #[trigger] self.cells()[i] == step_grid(start[i]),
                forall|i: int| l <= i < n ==> #[trigger] self.cells()[i] == start[i],
            decreases n - l,
        {
            let ghost before = self.cells();
            proof {
                self.lemma_layer_view(l as int);
                assert(grid_wf(start[l as int], self.size_x as int, self.size_y as int));
            }
            self.map[l].advance_tiles();
            proof {
                assert(self.cells() =~= before.update(l as int, step_grid(start[l as int])));
            }
            l += 1;
        }
        proof {
            assert(self.cells() =~= step_cells(start));
            assert forall|i: int| 0 <= i < self.layers implies grid_wf(#[trigger] self.cells()[i], self.size_x as int, self.size_y as int) by {
                lemma_step_grid_wf(start[i], self.size_x as int, self.size_y as int);
            }
        }
    }

    /// A map of `layers` layers of `size_x` by `size_y` empty tiles.
    fn blank(layers: i32, size_x: i32, size_y: i32, shift_x: i32, shift_y: i32, paths: Vec<&'static str>) -> (r: Self)
        requires
            0 <= layers,
            0 <= size_x,
            0 <= size_y,
        ensures
            r.wf(),
            r.layers == layers,
            r.size_x == size_x,
            r.size_y == size_y,
            r.shift_x == shift_x,
            r.shift_y == shift_y,
            r.tiles_textures_paths@ == paths@,
            r.textures() == Map::<TextureID, TextureHandle>::empty(),
            r.counter() == 0,
            forall|l: int, x: int, y: int| r.in_grid(l, x, y) ==> #[trigger] r.tile_at(l, x, y) == static_view(0, Set::empty()),
    {
        let mut map: Vec<TiledMapLayer> = Vec::new();
        let mut l: i32 = 0;
        while l < layers
            invariant
                0 <= l <= layers,
                0 <= size_x,
                0 <= size_y,
                map@.len() == l,
                forall|i: int| 0 <= i < l ==> grid_wf(#[trigger] map@[i]@, size_x as int, size_y as int),
                forall|i: int, x: int, y: int| 0 <= i < l && 0 <= x < size_x && 0 <= y < size_y ==>
                    #[trigger] map@[i]@[x][y] == static_view(0, Set::empty()),
            decreases layers - l,
        {
            map.push(TiledMapLayer::new(size_x, size_y));
            l += 1;
        }
        TiledMap {
            tiles_textures: HashMap::new(),
            map,
            layers,
            size_x,
            size_y,
            shift_x,
            shift_y,
            tile_width: TILE_WIDTH,
            tile_height: TILE_HEIGHT,
            scale: SCALE,
            tiles_textures_paths: paths,
            animation_counter: 0,
        }
    }

    /// Lays the initial ground on layer 0: sand in the middle, water around it.
    fn initialize_tiles(&mut self)
        requires
            old(self).wf(),
        ensures
            final(self).wf(),
            final(self).same_settings(old(self)),
            final(self).counter() == old(self).counter(),
            forall|l: int, x: int, y: int| #[trigger] final(self).in_grid(l, x, y) ==>
                final(self).tile_at(l, x, y) == if l == 0 { initial_ground(x, y) } else { old(self).tile_at(l, x, y) },
    {
        let mut x: i32 = 0;
        while x < self.size_x
            invariant
                self.wf(),
                self.same_settings(old(self)),
                self.counter() == old(self).counter(),
                0 <= x <= self.size_x,
                forall|l: int, i: int, j: int| #[trigger] self.in_grid(l, i, j) ==>
                    self.tile_at(l, i, j) == if l == 0 && i < x { initial_ground(i, j) } else { old(self).tile_at(l, i, j) },
            decreases self.size_x - x,
        {
            let mut y: i32 = 0;
            while y < self.size_y
                invariant
                    self.wf(),
                    self.same_settings(old(self)),
                    self.counter() == old(self).counter(),
                    0 <= x < self.size_x,
                    0 <= y <= self.size_y,
                    forall|l: int, i: int, j: int| #[trigger] self.in_grid(l, i, j) ==>
                        self.tile_at(l, i, j) == if l == 0 && (i < x || (i == x && j < y)) {
                            initial_ground(i, j)
                        } else {
                            old(self).tile_at(l, i, j)
                        },
                decreases self.size_y - y,
            {
                let tile = if x > 3 && x < 15 && y > 3 && y < 15 {
                    Tile::Static(1, Vec::new())
                } else {
                    new_water(13)
                };
                proof {
                    if !(x > 3 && x < 15 && y > 3 && y < 15) {
                        assert(tile@.frames =~= water_view(13).frames);
                    } else {
                        assert(tile@.tags =~= Set::<Tags>::empty());
                    }
                }
                let ghost prev = *self;
                self.set_tile(0, x, y, tile);
                assert forall|l: int, i: int, j: int| #[trigger] self.in_grid(l, i, j) implies
                    self.tile_at(l, i, j) == if l == 0 && (i < x || (i == x && j < y + 1)) {
                        initial_ground(i, j)
                    } else {
                        old(self).tile_at(l, i, j)
                    } by {
                    assert(prev.in_grid(l, i, j));
                }
                y += 1;
            }
            x += 1;
        }
    }

    /// Covers layer 0 with looping water over frames 0 to 3.
    fn init_water(&mut self)
        requires
            old(self).wf(),
        ensures
            final(self).wf(),
            final(self).same_settings(old(self)),
            final(self).counter() == old(self).counter(),
            forall|l: int, x: int, y: int| #[trigger] final(self).in_grid(l, x, y) ==>
                final(self).tile_at(l, x, y) == if l == 0 { water_view(0) } else { old(self).tile_at(l, x, y) },
    {
        let mut x: i32 = 0;
        while x < self.size_x
            invariant
                self.wf(),
                self.same_settings(old(self)),
                self.counter() == old(self).counter(),
                0 <= x <= self.size_x,
                forall|l: int, i: int, j: int| #[trigger] self.in_grid(l, i, j) ==>
                    self.tile_at(l, i, j) == if l == 0 && i < x { water_view(0) } else { old(self).tile_at(l, i, j) },
            decreases self.size_x - x,
        {
            let mut y: i32 = 0;
            while y < self.size_y
                invariant
                    self.wf(),
                    self.same_settings(old(self)),
                    self.counter() == old(self).counter(),
                    0 <= x < self.size_x,
                    0 <= y <= self.size_y,
                    forall|l: int, i: int, j: int| #[trigger] self.in_grid(l, i, j) ==>
                        self.tile_at(l, i, j) == if l == 0 && (i < x || (i == x && j < y)) {
                            water_view(0)
                        } else {
                            old(self).tile_at(l, i, j)
                        },
                decreases self.size_y - y,
            {
                let tile = new_water(0);
                assert(tile@.frames =~= water_view(0).frames);
                let ghost prev = *self;
                self.set_tile(0, x, y, tile);
                assert forall|l: int, i: int, j: int| #[trigger] self.in_grid(l, i, j) implies
                    self.tile_at(l, i, j) == if l == 0 && (i < x || (i == x && j < y + 1)) {
                        water_view(0)
                    } else {
                        old(self).tile_at(l, i, j)
                    } by {
                    assert(prev.in_grid(l, i, j));
                }
                y += 1;
            }
            x += 1;
        }
    }

    /// Puts the object of one random draw at `(x, y)` on the object layer:
    /// `kind` 0 is a palm, 1 a stone, anything else an empty cell.
    pub fn place_random_tile(&mut self, x: i32, y: i32, kind: i32)
        requires
            old(self).wf(),
        ensures
            final(self).wf(),
            final(self).same_settings(old(self)),
            final(self).counter() == old(self).counter(),
            final(self).cells() == if old(self).in_grid(1, x as int, y as int) {
                set_cell(old(self).cells(), 1, x as int, y as int, random_object(kind as int))
            } else {
                old(self).cells()
            },
    {
        let tile = match kind {
            0 => new_palme(),
            1 => new_stone(),
            _ => new_empty(),
        };
        self.set_tile(1, x, y, tile);
    }

    /// Whether `t` is one of the objects a random draw places.
    pub open spec fn is_random_object(t: TileView) -> bool {
        t == random_object(0) || t == random_object(1)
    }

    /// `self` is `before` with objects placed on the object-layer cells in `placed`
    /// and every other cell unchanged.
    pub open spec fn scattered_over(&self, before: &TiledMap, placed: Set<(int, int)>) -> bool {
        forall|l: int, x: int, y: int| #[trigger] self.in_grid(l, x, y) ==> {
            let t = self.tile_at(l, x, y);
            if l == 1 && placed.contains((x, y)) {
                Self::is_random_object(t)
            } else {
                t == before.tile_at(l, x, y)
            }
        }
    }

    /// Scatters palms and stones over at most `RANDOM_OBJECTS` random cells of the
    /// object layer; on a non-empty grid with an object layer, at least one lands.
    fn randomize_tiles(&mut self)
        requires
            old(self).wf(),
        ensures
            final(self).wf(),
            final(self).same_settings(old(self)),
            final(self).counter() == old(self).counter(),
            exists|placed: Set<(int, int)>| {
                &&& placed.finite()
                &&& placed.len() <= RANDOM_OBJECTS
                &&& #[trigger] final(self).scattered_over(old(self), placed)
            },
            old(self).layers > 1 && old(self).size_x > 0 && old(self).size_y > 0 ==> exists|x: int, y: int|
                #[trigger] final(self).in_grid(1, x, y) && Self::is_random_object(final(self).tile_at(1, x, y)),
    {
        let ghost mut placed: Set<(int, int)> = Set::empty();
        let ghost mut last: (int, int) = (0, 0);
        if self.size_x <= 0 || self.size_y <= 0 {
            assert(self.scattered_over(old(self), placed));
            return;
        }
        let mut n: u32 = 0;
        while n < RANDOM_OBJECTS
            invariant
                self.wf(),
                self.same_settings(old(self)),
                self.counter() == old(self).counter(),
                self.size_x > 0,
                self.size_y > 0,
                n <= RANDOM_OBJECTS,
                placed.finite(),
                placed.len() <= n,
                self.scattered_over(old(self), placed),
                n > 0 && self.layers > 1 ==> self.in_grid(1, last.0, last.1)
                    && Self::is_random_object(self.tile_at(1, last.0, last.1)),
            decreases RANDOM_OBJECTS - n,
        {
            let x = random_below(self.size_x);
            let y = random_below(self.size_y);
            let kind = random_below(2);
            let ghost prev = *self;
            let ghost prev_placed = placed;
            self.place_random_tile(x, y, kind);
            proof {
                placed = placed.insert((x as int, y as int));
                last = (x as int, y as int);
                assert forall|l: int, i: int, j: int| #[trigger] self.in_grid(l, i, j) implies {
                    let t = self.tile_at(l, i, j);
                    if l == 1 && placed.contains((i, j)) {
                        Self::is_random_object(t)
                    } else {
                        t == old(self).tile_at(l, i, j)
                    }
                } by {
                    assert(prev.in_grid(l, i, j));
                    if l == 1 && prev_placed.contains((i, j)) {
                    }
                }
                if self.layers > 1 {
                    assert(self.in_grid(1, x as int, y as int));
                    assert(self.tile_at(1, x as int, y as int) == random_object(kind as int));
                }
            }
            n += 1;
        }
        proof {
            if self.layers > 1 {
                assert(self.in_grid(1, last.0, last.1));
            }
        }
    }

    /// A map of `layers` layers, with sand ringed by water on layer 0 and palms and
    /// stones scattered at random over layer 1.
    pub fn new(layers: i32, size_x: i32, size_y: i32) -> (r: Self)
        requires
            0 <= layers,
            0 <= size_x,
            0 <= size_y,
        ensures
            r.wf(),
            r.layers == layers,
            r.size_x == size_x,
            r.size_y == size_y,
            r.shift_x == 0,
            r.shift_y == 0,
            r.tiles_textures_paths@.len() == 25,
            r.textures() == Map::<TextureID, TextureHandle>::empty(),
            r.counter() == 0,
            forall|l: int, x: int, y: int| #[trigger] r.in_grid(l, x, y) ==> {
                let t = r.tile_at(l, x, y);
                if l == 0 {
                    t == initial_ground(x, y)
                } else if l == 1 {
                    t == static_view(0, Set::empty()) || t == random_object(0) || t == random_object(1)
                } else {
                    t == static_view(0, Set::empty())
                }
            },
            exists|placed: Set<(int, int)>| {
                &&& placed.finite()
                &&& placed.len() <= RANDOM_OBJECTS
                &&& forall|x: int, y: int| #[trigger] r.in_grid(1, x, y) ==> if placed.contains((x, y)) {
                    Self::is_random_object(r.tile_at(1, x, y))
                } else {
                    r.tile_at(1, x, y) == static_view(0, Set::empty())
                }
            },
            layers > 1 && size_x > 0 && size_y > 0 ==> exists|x: int, y: int|
                #[trigger] r.in_grid(1, x, y) && Self::is_random_object(r.tile_at(1, x, y)),
    {
        let paths: Vec<&'static str> = vec![
            "assets/empty_tile.png",
            "assets/sand_tile.png",
            "assets/palme0.png",
            "assets/palme1.png",
            "assets/palme2.png",
            "assets/palme3.png",
            "assets/empty_tile.png",
            "assets/stein0.png",
            "assets/stein1.png",
            "assets/stein2.png",
            "assets/stein3.png",
            "assets/stein4.png",
            "assets/empty_tile.png",
            "assets/water0.png",
            "assets/water1.png",
            "assets/water2.png",
            "assets/water3.png",
            "assets/Sandmauer.png",
            "assets/pile0.png",
            "assets/pile1.png",
            "assets/pile2.png",
            "assets/pile3.png",
            "assets/pile4.png",
            "assets/pile5.png",
            "assets/empty_tile.png",
        ];
        let mut tiled_map = Self::blank(layers, size_x, size_y, 0, 0, paths);
        let ghost m0 = tiled_map;
        tiled_map.initialize_tiles();
        let ghost m1 = tiled_map;
        tiled_map.randomize_tiles();
        assert forall|l: int, x: int, y: int| #[trigger] tiled_map.in_grid(l, x, y) implies {
            let t = tiled_map.tile_at(l, x, y);
            if l == 0 {
                t == initial_ground(x, y)
            } else if l == 1 {
                t == static_view(0, Set::empty()) || t == random_object(0) || t == random_object(1)
            } else {
                t == static_view(0, Set::empty())
            }
        } by {
            assert(m1.in_grid(l, x, y));
            assert(m0.in_grid(l, x, y));
        }
        proof {
            let placed = choose|placed: Set<(int, int)>| {
                &&& placed.finite()
                &&& placed.len() <= RANDOM_OBJECTS
                &&& #[trigger] tiled_map.scattered_over(&m1, placed)
            };
            assert forall|x: int, y: int| #[trigger] tiled_map.in_grid(1, x, y) implies if placed.contains((x, y)) {
                Self::is_random_object(tiled_map.tile_at(1, x, y))
            } else {
                tiled_map.tile_at(1, x, y) == static_view(0, Set::empty())
            } by {
                assert(m1.in_grid(1, x, y));
                assert(m0.in_grid(1, x, y));
            }
        }
        tiled_map
    }

    /// A one-layer backdrop of looping water, drawn shifted by -320 pixels on both axes.
    pub fn water(layers: i32, size_x: i32, size_y: i32) -> (r: Self)
        requires
            0 <= layers,
            0 <= size_x,
            0 <= size_y,
        ensures
            r.wf(),
            r.layers == layers,
            r.size_x == size_x,
            r.size_y == size_y,
            r.shift_x == -320,
            r.shift_y == -320,
            r.tiles_textures_paths@.len() == 4,
            r.textures() == Map::<TextureID, TextureHandle>::empty(),
            r.counter() == 0,
            forall|l: int, x: int, y: int| #[trigger] r.in_grid(l, x, y) ==>
                r.tile_at(l, x, y) == if l == 0 { water_view(0) } else { static_view(0, Set::empty()) },
    {
        let paths: Vec<&'static str> = vec![
            "assets/water0.png",
            "assets/water1.png",
            "assets/water2.png",
            "assets/water3.png",
        ];
        let mut tiled_map = Self::blank(layers, size_x, size_y, -320, -320, paths);
        tiled_map.init_water();
        tiled_map
    }
    /// Where a struck tile at world position `pos` turns into its falling sequence:
    /// the object-layer cell containing `pos`, if the tile is a static object that
    /// falls and that cell lies in the map.
    pub open spec fn hit_target(&self, hit: (TileView, Vec2)) -> Option<(int, int, TileView)> {
        let (t, pos) = hit;
        if t.kind == TileKind::Static && falling_view(t.frames[0]) is Some && self.layers > 1
            && pos.x >= 0 && pos.y >= 0 && pos.x / CELL_WIDTH < self.size_x && pos.y / CELL_HEIGHT < self.size_y {
            Some((pos.x / CELL_WIDTH, pos.y / CELL_HEIGHT, falling_view(t.frames[0]).unwrap()))
        } else {
            None
        }
    }

    /// `cells` after the struck tiles in `marked` have been replaced, first to last.
    pub open spec fn after_hits(&self, cells: Seq<Seq<Seq<TileView>>>, marked: Seq<(TileView, Vec2)>) -> Seq<Seq<Seq<TileView>>>
        decreases marked.len(),
    {
        if marked.len() == 0 {
            cells
        } else {
            let before = self.after_hits(cells, marked.drop_last());
            match self.hit_target(marked.last()) {
                Some((x, y, t)) => set_cell(before, 1, x, y, t),
                None => before,
            }
        }
    }

    /// Replaces each struck tile on the object layer by its falling sequence; the
    /// sequence carries `Barrier`, so the object blocks until it has fallen.
    pub fn handle_hit_tiles(&mut self, marked_tiles: Vec<(Tile, Vec2)>)
        requires
            old(self).wf(),
        ensures
            final(self).wf(),
            final(self).same_settings(old(self)),
            final(self).counter() == old(self).counter(),
            final(self).cells() == old(self).after_hits(old(self).cells(), hits_view(marked_tiles@)),
    {
        let ghost marked = hits_view(marked_tiles@);
        let mut i: usize = 0;
        while i < marked_tiles.len()
            invariant
                marked == hits_view(marked_tiles@),
                0 <= i <= marked_tiles.len(),
                self.wf(),
                self.same_settings(old(self)),
                self.counter() == old(self).counter(),
                self.cells() == old(self).after_hits(old(self).cells(), marked.subrange(0, i as int)),
            decreases marked_tiles.len() - i,
        {
            proof {
                assert(marked.subrange(0, i + 1).drop_last() == marked.subrange(0, i as int));
                assert(marked.subrange(0, i + 1).last() == marked[i as int]);
            }
            let entry = &marked_tiles[i];
            if let Tile::Static(id, _) = &entry.0 {
                if let Some(falling) = falling_tile(*id) {
                    if entry.1.x >= 0 && entry.1.y >= 0 && self.layers > 1 {
                        let x = entry.1.x / CELL_WIDTH;
                        let y = entry.1.y / CELL_HEIGHT;
                        if x < self.size_x as i64 && y < self.size_y as i64 {
                            self.set_tile(1, x as i32, y as i32, falling);
                        }
                    }
                }
            }
            i += 1;
        }
        assert(marked.subrange(0, marked_tiles@.len() as int) == marked);
    }

    /// Writes layer `layer` from a maze layer string, row by row; stops at the first
    /// character that is no code or when the string runs out.
    fn fill_layer(&mut self, layer: i32, text: &str, short: MazeError) -> (r: Result<(), MazeError>)
        requires
            old(self).wf(),
            0 <= layer < old(self).layers,
        ensures
            final(self).wf(),
            final(self).same_settings(old(self)),
            final(self).counter() == old(self).counter(),
            match r {
                Ok(()) => {
                    &&& scan_error(significant(text@), old(self).size_x * old(self).size_y, short) is None
                    &&& forall|l: int, x: int, y: int| #[trigger] final(self).in_grid(l, x, y) ==>
                        final(self).tile_at(l, x, y) == if l == layer {
                            maze_tile(text@, old(self).size_x as int, x, y)
                        } else {
                            old(self).tile_at(l, x, y)
                        }
                },
                Err(e) => scan_error(significant(text@), old(self).size_x * old(self).size_y, short) == Some(e),
            },
    {
        let len = text.unicode_len();
        let mut pos: usize = 0;
        let ghost sig = significant(text@);
        let ghost w = self.size_x as int;
        let ghost n = self.size_x * self.size_y;
        let ghost mut k: int = 0;
        assert(text@.subrange(0, len as int) == text@);
        let mut y: i32 = 0;
        while y < self.size_y
            invariant
                sig == significant(text@),
                w == self.size_x,
                n == self.size_x * self.size_y,
                self.wf(),
                self.same_settings(old(self)),
                self.counter() == old(self).counter(),
                0 <= layer < self.layers,
                0 <= y <= self.size_y,
                len == text@.len(),
                pos <= len,
                k == y * w,
                0 <= k <= sig.len(),
                significant(text@.subrange(pos as int, len as int)) == sig.subrange(k, sig.len() as int),
                scan_error(sig, k, short) is None,
                forall|l: int, i: int, j: int| #[trigger] self.in_grid(l, i, j) ==>
                    self.tile_at(l, i, j) == if l == layer && j < y {
                        code_tile(sig[j * w + i]).unwrap()
                    } else {
                        old(self).tile_at(l, i, j)
                    },
            decreases self.size_y - y,
        {
            let mut x: i32 = 0;
            while x < self.size_x
                invariant
                    sig == significant(text@),
                    w == self.size_x,
                    n == self.size_x * self.size_y,
                    self.wf(),
                    self.same_settings(old(self)),
                    self.counter() == old(self).counter(),
                    0 <= layer < self.layers,
                    0 <= y < self.size_y,
                    0 <= x <= self.size_x,
                    len == text@.len(),
                    pos <= len,
                    k == y * w + x,
                    0 <= k <= sig.len(),
                    significant(text@.subrange(pos as int, len as int)) == sig.subrange(k, sig.len() as int),
                    scan_error(sig, k, short) is None,
                    forall|l: int, i: int, j: int| #[trigger] self.in_grid(l, i, j) ==>
                        self.tile_at(l, i, j) == if l == layer && (j < y || (j == y && i < x)) {
                            code_tile(sig[j * w + i]).unwrap()
                        } else {
                            old(self).tile_at(l, i, j)
                        },
                decreases self.size_x - x,
            {
                proof {
                    assert((y + 1) * w <= self.size_y * w) by (nonlinear_arith)
                        requires y + 1 <= self.size_y, w >= 0;
                    assert((y + 1) * w == y * w + w) by (nonlinear_arith);
                    assert(n == self.size_y * w) by (nonlinear_arith)
                        requires n == self.size_x * self.size_y, w == self.size_x;
                }
                let (c, next) = next_significant(text, len, pos);
                match c {
                    None => {
                        proof {
                            assert(sig.subrange(k, sig.len() as int).len() == 0);
                            assert(scan_error(sig, k + 1, short) == Some(short));
                            lemma_scan_error_stays(sig, k + 1, n, short);
                        }
                        return Err(short);
                    },
                    Some(ch) => {
                        proof {
                            let rest = sig.subrange(k, sig.len() as int);
                            assert(rest[0] == ch);
                            assert(sig[k] == ch);
                            assert(significant(text@.subrange(next as int, len as int)) == rest.drop_first());
                            assert(rest.drop_first() == sig.subrange(k + 1, sig.len() as int));
                        }
                        match tile_for_code(ch) {
                            None => {
                                proof {
                                    assert(scan_error(sig, k + 1, short) == Some(MazeError::InvalidId(ch)));
                                    lemma_scan_error_stays(sig, k + 1, n, short);
                                }
                                return Err(MazeError::InvalidId(ch));
                            },
                            Some(tile) => {
                                let ghost prev = *self;
                                self.set_tile(layer, x, y, tile);
                                assert forall|l: int, i: int, j: int| #[trigger] self.in_grid(l, i, j) implies
                                    self.tile_at(l, i, j) == if l == layer && (j < y || (j == y && i < x + 1)) {
                                        code_tile(sig[j * w + i]).unwrap()
                                    } else {
                                        old(self).tile_at(l, i, j)
                                    } by {
                                    assert(prev.in_grid(l, i, j));
                                }
                                pos = next;
                                proof {
                                    k = k + 1;
                                }
                            },
                        }
                    },
                }
                x += 1;
            }
            assert((y + 1) * w == y * w + w) by (nonlinear_arith);
            y += 1;
        }
        proof {
            assert(k == n) by (nonlinear_arith)
                requires k == y * w, y == self.size_y, n == self.size_x * self.size_y, w == self.size_x;
        }
        Ok(())
    }

    /// Builds the two-layer map that a maze description spells out: layer 0 from
    /// the ground string, layer 1 from the object string, each read row by row.
    pub fn from(config: &MazeConfig) -> (r: Result<Self, MazeError>)
        requires
            0 <= config.size.0,
            0 <= config.size.1,
        ensures
            r is Ok <==> maze_error(config) is None,
            match r {
                Ok(m) => {
                    &&& m.wf()
                    &&& m.layers == 2
                    &&& m.size_x == config.size.0
                    &&& m.size_y == config.size.1
                    &&& m.shift_x == 0
                    &&& m.shift_y == 0
                    &&& m.tiles_textures_paths@.len() == 25
                    &&& m.textures() == Map::<TextureID, TextureHandle>::empty()
                    &&& m.counter() == 0
                    &&& forall|l: int, x: int, y: int| #[trigger] m.in_grid(l, x, y) ==>
                        m.tile_at(l, x, y) == maze_tile(if l == 0 { config.ground@ } else { config.objects@ }, config.size.0 as int, x, y)
                },
                Err(e) => maze_error(config) == Some(e),
            },
    {
        let mut tiled_map = Self::new(2, config.size.0, config.size.1);
        let ghost m0 = tiled_map;
        match tiled_map.fill_layer(0, config.ground.as_str(), MazeError::GroundTooShort) {
            Err(e) => return Err(e),
            Ok(()) => {},
        }
        let ghost m1 = tiled_map;
        match tiled_map.fill_layer(1, config.objects.as_str(), MazeError::ObjectsTooShort) {
            Err(e) => return Err(e),
            Ok(()) => {},
        }
        assert forall|l: int, x: int, y: int| #[trigger] tiled_map.in_grid(l, x, y) implies
            tiled_map.tile_at(l, x, y) == maze_tile(if l == 0 { config.ground@ } else { config.objects@ }, config.size.0 as int, x, y) by {
            assert(m1.in_grid(l, x, y));
        }
        Ok(tiled_map)
    }

    /// The draw request for cell `(x, y)` of layer `l`, if its frame has a texture.
    pub open spec fn cell_draw(&self, l: int, x: int, y: int) -> Option<TileDraw> {
        let id = self.tile_at(l, x, y).texture();
        if self.textures().contains_key(id) {
            Some(TileDraw {
                texture: self.textures()[id],
                position: Vec2 {
                    x: (x * CELL_WIDTH + self.shift_x) as i64,
                    y: (y * CELL_HEIGHT + self.shift_y) as i64,
                },
                scale: self.scale,
            })
        } else {
            None
        }
    }

    pub open spec fn column_draws(&self, l: int, x: int, y: int) -> Seq<TileDraw>
        decreases y,
    {
        if y <= 0 {
            Seq::empty()
        } else {
            let prev = self.column_draws(l, x, y - 1);
            match self.cell_draw(l, x, y - 1) {
                Some(d) => prev.push(d),
                None => prev,
            }
        }
    }

    pub open spec fn layer_draws(&self, l: int, x: int) -> Seq<TileDraw>
        decreases x,
    {
        if x <= 0 {
            Seq::empty()
        } else {
            self.layer_draws(l, x - 1) + self.column_draws(l, x - 1, self.size_y as int)
        }
    }

    /// The draw requests of the first `l` layers: layer by layer, column by column.
    pub open spec fn draws(&self, l: int) -> Seq<TileDraw>
        decreases l,
    {
        if l <= 0 {
            Seq::empty()
        } else {
            self.draws(l - 1) + self.layer_draws(l - 1, self.size_x as int)
        }
    }

    /// What to draw this frame, bottom layer first: each cell whose frame has a
    /// texture, at its grid position times the cell size plus the map's shift.
    pub fn render(&self) -> (r: Vec<TileDraw>)
        requires
            self.wf(),
        ensures
            r@ == self.draws(self.layers as int),
    {
        let mut out: Vec<TileDraw> = Vec::new();
        let mut l: i32 = 0;
        while l < self.layers
            invariant
                self.wf(),
                0 <= l <= self.layers,
                out@ == self.draws(l as int),
            decreases self.layers - l,
        {
            let mut x: i32 = 0;
            while x < self.size_x
                invariant
                    self.wf(),
                    0 <= l < self.layers,
                    0 <= x <= self.size_x,
                    out@ == self.draws(l as int) + self.layer_draws(l as int, x as int),
                decreases self.size_x - x,
            {
                let mut y: i32 = 0;
                while y < self.size_y
                    invariant
                        self.wf(),
                        0 <= l < self.layers,
                        0 <= x < self.size_x,
                        0 <= y <= self.size_y,
                        out@ == self.draws(l as int) + self.layer_draws(l as int, x as int)
                            + self.column_draws(l as int, x as int, y as int),
                    decreases self.size_y - y,
                {
                    if let Some(texture) = self.get_tile_texture(l, x, y) {
                        let position = Vec2 {
                            x: x as i64 * CELL_WIDTH + self.shift_x as i64,
                            y: y as i64 * CELL_HEIGHT + self.shift_y as i64,
                        };
                        out.push(TileDraw { texture, position, scale: self.scale });
                    }
                    y += 1;
                }
                x += 1;
            }
            l += 1;
        }
        out
    }
}

} // verus!
