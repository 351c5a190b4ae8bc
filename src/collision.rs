use vstd::prelude::*;

use crate::geometry::{Rect, Vec2, cell_overlaps};
use crate::layer::{hits, lemma_hit_present};
use crate::player::{Movement, WORLD_LIMIT, collision_rect_at};
use crate::tile::{Tags, TileKind};
use crate::tiled_map::TiledMap;

verus! {

/// Whether some tile carrying `Barrier`, on any layer, overlaps `r`.
pub open spec fn blocked(map: &TiledMap, r: Rect) -> bool {
    exists|l: int, i: int|
        0 <= l < map.layers && 0 <= i < hits(map.cells()[l], r).len()
            && (#[trigger] hits(map.cells()[l], r)[i]).0.has(Tags::Barrier)
}

/// Whether some static level-exit tile without `Barrier`, on any layer, overlaps `r`.
pub open spec fn reaches_goal(map: &TiledMap, r: Rect) -> bool {
    exists|l: int, i: int|
        0 <= l < map.layers && 0 <= i < hits(map.cells()[l], r).len() && {
            let t = (#[trigger] hits(map.cells()[l], r)[i]).0;
            t.kind == TileKind::Static && t.has(Tags::Goal) && !t.has(Tags::Barrier)
        }
}

/// Thousandths of a pixel walked along each moving axis in `ms` milliseconds; on a
/// diagonal each axis gets the length times 0.7071, so the walk keeps its speed.
pub open spec fn travel(dir: Vec2, speed: int, ms: int) -> int {
    if dir.x != 0 && dir.y != 0 {
        speed * ms * 7071 / 10_000
    } else {
        speed * ms
    }
}

/// `len` along one axis in the sign of `d`.
pub open spec fn toward(d: int, len: int) -> int {
    if d > 0 {
        len
    } else if d < 0 {
        -len
    } else {
        0
    }
}

/// The whole pixels in `t` thousandths of a pixel, rounded toward zero.
pub open spec fn whole_pixels(t: int) -> int {
    if t >= 0 {
        t / 1000
    } else {
        -((-t) / 1000)
    }
}

pub open spec fn clamp_world(v: int) -> int {
    if v > WORLD_LIMIT {
        WORLD_LIMIT as int
    } else if v < -WORLD_LIMIT {
        -WORLD_LIMIT
    } else {
        v
    }
}

/// The distance owed on each axis, in thousandths of a pixel: what was carried over
/// from earlier frames plus this frame's walk.
pub open spec fn owed(carry: Vec2, m: Movement, ms: int) -> (int, int) {
    let len = travel(m.direction, m.speed as int, ms);
    (carry.x + toward(m.direction.x as int, len), carry.y + toward(m.direction.y as int, len))
}

/// Where a walk of `ms` milliseconds would take an actor at `pos` that carries
/// `carry` thousandths of a pixel, before collisions: the whole pixels owed.
pub open spec fn tentative(pos: Vec2, carry: Vec2, m: Movement, ms: int) -> Vec2 {
    let (ox, oy) = owed(carry, m, ms);
    Vec2 {
        x: clamp_world(pos.x + whole_pixels(ox)) as i64,
        y: clamp_world(pos.y + whole_pixels(oy)) as i64,
    }
}

/// The fraction of a pixel still owed after the whole pixels were walked.
pub open spec fn leftover(carry: Vec2, m: Movement, ms: int) -> Vec2 {
    let (ox, oy) = owed(carry, m, ms);
    Vec2 { x: (ox - whole_pixels(ox) * 1000) as i64, y: (oy - whole_pixels(oy) * 1000) as i64 }
}

/// Sliding collision: the full move if it is free, else the move along x alone,
/// else the move along y alone, else no move.
pub open spec fn resolve(map: &TiledMap, dims: Vec2, start: Vec2, target: Vec2) -> Vec2 {
    let x_only = Vec2 { x: target.x, y: start.y };
    let y_only = Vec2 { x: start.x, y: target.y };
    if !blocked(map, collision_rect_at(dims, target)) {
        target
    } else if !blocked(map, collision_rect_at(dims, x_only)) {
        x_only
    } else if !blocked(map, collision_rect_at(dims, y_only)) {
        y_only
    } else {
        start
    }
}

/// Whether some tile carrying `Barrier` overlaps `r`.
pub fn barrier_hit(map: &TiledMap, r: &Rect) -> (b: bool)
    requires
        map.wf(),
    ensures
        b == blocked(map, *r),
{
    let mut layer: i32 = 0;
    while layer < map.layers
        invariant
            map.wf(),
            0 <= layer <= map.layers,
            forall|l: int, i: int| 0 <= l < layer && 0 <= i < hits(map.cells()[l], *r).len()
                ==> !(#[trigger] hits(map.cells()[l], *r)[i]).0.has(Tags::Barrier),
        decreases map.layers - layer,
    {
        if let Some(v) = map.get_collision_tiles_with_layer(layer, r) {
            let mut i: usize = 0;
            while i < v.len()
                invariant
                    map.wf(),
                    0 <= layer < map.layers,
                    0 <= i <= v@.len(),
                    crate::layer::hits_view(v@) == hits(map.cells()[layer as int], *r),
                    forall|j: int| 0 <= j < i ==> !(#[trigger] hits(map.cells()[layer as int], *r)[j]).0.has(Tags::Barrier),
                decreases v.len() - i,
            {
                assert(hits(map.cells()[layer as int], *r)[i as int].0 == v@[i as int].0@);
                if v[i].0.has_tag(Tags::Barrier) {
                    assert(hits(map.cells()[layer as int], *r)[i as int].0.has(Tags::Barrier));
                    return true;
                }
                i += 1;
            }
        }
        layer += 1;
    }
    false
}

/// Whether some static level-exit tile without `Barrier` overlaps `r`.
pub fn goal_hit(map: &TiledMap, r: &Rect) -> (b: bool)
    requires
        map.wf(),
    ensures
        b == reaches_goal(map, *r),
{
    let mut layer: i32 = 0;
    while layer < map.layers
        invariant
            map.wf(),
            0 <= layer <= map.layers,
            forall|l: int, i: int| 0 <= l < layer && 0 <= i < hits(map.cells()[l], *r).len() ==> {
                let t = (#[trigger] hits(map.cells()[l], *r)[i]).0;
                !(t.kind == TileKind::Static && t.has(Tags::Goal) && !t.has(Tags::Barrier))
            },
        decreases map.layers - layer,
    {
        if let Some(v) = map.get_collision_tiles_with_layer(layer, r) {
            let mut i: usize = 0;
            while i < v.len()
                invariant
                    map.wf(),
                    0 <= layer < map.layers,
                    0 <= i <= v@.len(),
                    crate::layer::hits_view(v@) == hits(map.cells()[layer as int], *r),
                    forall|j: int| 0 <= j < i ==> {
                        let t = (#[trigger] hits(map.cells()[layer as int], *r)[j]).0;
                        !(t.kind == TileKind::Static && t.has(Tags::Goal) && !t.has(Tags::Barrier))
                    },
                decreases v.len() - i,
            {
                assert(hits(map.cells()[layer as int], *r)[i as int].0 == v@[i as int].0@);
                let is_static = match &v[i].0 {
                    crate::tile::Tile::Static(_, _) => true,
                    _ => false,
                };
                if is_static && v[i].0.has_tag(Tags::Goal) && !v[i].0.has_tag(Tags::Barrier) {
                    let ghost t = hits(map.cells()[layer as int], *r)[i as int].0;
                    assert(t.kind == TileKind::Static && t.has(Tags::Goal) && !t.has(Tags::Barrier));
                    return true;
                }
                i += 1;
            }
        }
        layer += 1;
    }
    false
}

/// Splits a distance in thousandths of a pixel into whole pixels and the rest.
fn split_pixels(t: i64) -> (r: (i64, i64))
    requires
        -2_000_000_000_000 <= t <= 2_000_000_000_000,
    ensures
        r.0 == whole_pixels(t as int),
        r.1 == t - whole_pixels(t as int) * 1000,
        -1000 < r.1 < 1000,
        -2_000_000_000 <= r.0 <= 2_000_000_000,
{
    let whole = if t >= 0 {
        t / 1000
    } else {
        -((-t) / 1000)
    };
    (whole, t - whole * 1000)
}

/// Where a walk of `frame_ms` milliseconds takes an actor at `pos` that carries
/// `carry` thousandths of a pixel, before collisions, and what it carries on.
pub fn tentative_position(pos: Vec2, carry: Vec2, m: Movement, frame_ms: u32) -> (r: (Vec2, Vec2))
    requires
        -WORLD_LIMIT <= pos.x <= WORLD_LIMIT,
        -WORLD_LIMIT <= pos.y <= WORLD_LIMIT,
        -1000 < carry.x < 1000,
        -1000 < carry.y < 1000,
        m.wf(),
    ensures
        r.0 == tentative(pos, carry, m, frame_ms as int),
        r.1 == leftover(carry, m, frame_ms as int),
        -WORLD_LIMIT <= r.0.x <= WORLD_LIMIT,
        -WORLD_LIMIT <= r.0.y <= WORLD_LIMIT,
        -1000 < r.1.x < 1000,
        -1000 < r.1.y < 1000,
{
    let ms = frame_ms as i64;
    proof {
        assert(0 <= m.speed * ms <= 300 * 4294967295) by (nonlinear_arith)
            requires 0 <= m.speed <= 300, 0 <= ms <= 4294967295;
    }
    let len: i64 = if m.direction.x != 0 && m.direction.y != 0 {
        m.speed * ms * 7071 / 10_000
    } else {
        m.speed * ms
    };
    assert(0 <= len <= 300 * 4294967295);
    let dx: i64 = if m.direction.x > 0 {
        len
    } else if m.direction.x < 0 {
        -len
    } else {
        0
    };
    let dy: i64 = if m.direction.y > 0 {
        len
    } else if m.direction.y < 0 {
        -len
    } else {
        0
    };
    let (wx, rx) = split_pixels(carry.x + dx);
    let (wy, ry) = split_pixels(carry.y + dy);
    (Vec2 { x: clamp_coordinate(pos.x + wx), y: clamp_coordinate(pos.y + wy) }, Vec2 { x: rx, y: ry })
}

fn clamp_coordinate(v: i64) -> (r: i64)
    ensures
        r == clamp_world(v as int),
{
    if v > WORLD_LIMIT {
        WORLD_LIMIT
    } else if v < -WORLD_LIMIT {
        -WORLD_LIMIT
    } else {
        v
    }
}

/// The actor never ends a move inside a barrier: if its collision rectangle at the
/// resolved position overlaps a cell that carries `Barrier`, on any layer, the
/// resolved position is the one it started from.
pub proof fn lemma_no_barrier_penetration(map: &TiledMap, dims: Vec2, start: Vec2, target: Vec2, l: int, x: int, y: int)
    requires
        map.wf(),
        map.in_grid(l, x, y),
        map.tile_at(l, x, y).has(Tags::Barrier),
        cell_overlaps(x, y, collision_rect_at(dims, resolve(map, dims, start, target))),
    ensures
        resolve(map, dims, start, target) == start,
{
    let r = collision_rect_at(dims, resolve(map, dims, start, target));
    let cells = map.cells()[l];
    assert(crate::layer::grid_wf(cells, map.size_x as int, map.size_y as int));
    lemma_hit_present(cells, r, x, y);
    let i = choose|i: int| 0 <= i < hits(cells, r).len() && hits(cells, r)[i] == (cells[x][y], crate::geometry::cell_origin(x, y));
    assert(hits(map.cells()[l], r)[i].0.has(Tags::Barrier));
    assert(blocked(map, r));
}

} // verus!
