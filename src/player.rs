use vstd::prelude::*;

use crate::collision::{barrier_hit, goal_hit, leftover, reaches_goal, resolve, tentative, tentative_position};
use crate::geometry::{Rect, Vec2};
use crate::layer::{hits, hits_view};
use crate::tile::{PALM_ID, PILE_ID, STONE_ID, Tags, TextureID, Tile, TileKind, TileView};
use crate::tiled_map::TiledMap;
use crate::item::{Item, ItemType};
use crate::tiled_map::TextureHandle;
use crate::tool::{Tool, ToolKind, ToolView, target_id};
use crate::trait_collision::Collision;

verus! {

/// A cycle of frames and the one now shown.
#[derive(Debug)]
pub struct Animation {
    pub frames: Vec<TextureHandle>,
    pub current: TextureHandle,
    pub index: usize,
}

/// Which way the actor, or a tool, faces.
#[derive(Clone, Copy, Debug, PartialEq, Eq, Structural)]
pub enum Orientation {
    Left,
    Right,
}

impl Animation {
    pub open spec fn wf(&self) -> bool {
        self.index < self.frames@.len()
    }

    /// An animation over `frames`, showing the first.
    pub fn new(frames: &Vec<TextureHandle>) -> (r: Animation)
        requires
            frames@.len() > 0,
        ensures
            r.frames@ == frames@,
            r.current == frames@[0],
            r.index == 0,
    {
        let mut copy: Vec<TextureHandle> = Vec::new();
        let mut i: usize = 0;
        while i < frames.len()
            invariant
                0 <= i <= frames.len(),
                copy@ == frames@.subrange(0, i as int),
            decreases frames.len() - i,
        {
            copy.push(frames[i]);
            i += 1;
            assert(copy@ =~= frames@.subrange(0, i as int));
        }
        assert(copy@ =~= frames@);
        let first = frames[0];
        Animation { frames: copy, current: first, index: 0 }
    }

    /// Shows the frame at the counter and moves the counter on, wrapping at the end.
    pub fn update(&mut self)
        requires
            old(self).wf(),
        ensures
            final(self).frames@ == old(self).frames@,
            final(self).current == old(self).frames@[old(self).index as int],
            final(self).index == if old(self).index + 1 >= old(self).frames@.len() { 0 } else { old(self).index + 1 },
            final(self).wf(),
    {
        self.current = self.frames[self.index];
        if self.index >= self.frames.len() - 1 {
            self.index = 0;
        } else {
            self.index += 1;
        }
    }
}


/// Health of a rested actor.
pub const MAX_HP: i32 = 1000;
/// At or below this health the actor slows down.
pub const TIRED_HP: i32 = 200;
/// Pixels per second walked while healthy.
pub const RUN_SPEED: i64 = 300;
/// Pixels per second walked while tired.
pub const TIRED_SPEED: i64 = 150;
/// The actor stays within this distance of the origin on each axis.
pub const WORLD_LIMIT: i64 = 1_000_000_000_000;
/// Upper bound of the actor's sprite size on each axis.
pub const DIMENSION_LIMIT: i64 = 1_000_000;

/// The direction the actor is asked to walk in, each axis -1, 0 or 1, and its speed.
#[derive(Clone, Copy, Debug, PartialEq, Eq, Structural)]
pub struct Movement {
    pub direction: Vec2,
    pub speed: i64,
}

impl Movement {
    pub open spec fn wf(&self) -> bool {
        &&& -1 <= self.direction.x <= 1
        &&& -1 <= self.direction.y <= 1
        &&& 0 <= self.speed <= RUN_SPEED
    }

    pub fn reset(&mut self)
        ensures
            final(self).direction == (Vec2 { x: 0, y: 0 }),
            final(self).speed == old(self).speed,
    {
        self.direction = Vec2 { x: 0, y: 0 };
    }

    pub fn up(&mut self)
        ensures
            final(self).direction == (Vec2 { y: -1i64, ..old(self).direction }),
            final(self).speed == old(self).speed,
    {
        self.direction.y = -1;
    }

    pub fn down(&mut self)
        ensures
            final(self).direction == (Vec2 { y: 1, ..old(self).direction }),
            final(self).speed == old(self).speed,
    {
        self.direction.y = 1;
    }

    pub fn left(&mut self)
        ensures
            final(self).direction == (Vec2 { x: -1i64, ..old(self).direction }),
            final(self).speed == old(self).speed,
    {
        self.direction.x = -1;
    }

    pub fn right(&mut self)
        ensures
            final(self).direction == (Vec2 { x: 1, ..old(self).direction }),
            final(self).speed == old(self).speed,
    {
        self.direction.x = 1;
    }

    /// Whether any direction is asked for.
    pub fn moves(&self) -> (r: bool)
        ensures
            r == (self.direction.x != 0 || self.direction.y != 0),
    {
        self.direction.x != 0 || self.direction.y != 0
    }
}

/// The tools in hand, by the side that holds them.
#[derive(Debug)]
pub enum Inventory {
    Empty,
    Left(Tool),
    Right(Tool),
    Both(Tool, Tool),
}

pub enum InventoryView {
    Empty,
    Left(ToolView),
    Right(ToolView),
    Both(ToolView, ToolView),
}

impl View for Inventory {
    type V = InventoryView;

    open spec fn view(&self) -> InventoryView {
        match self {
            Inventory::Empty => InventoryView::Empty,
            Inventory::Left(l) => InventoryView::Left(l@),
            Inventory::Right(r) => InventoryView::Right(r@),
            Inventory::Both(l, r) => InventoryView::Both(l@, r@),
        }
    }
}

impl InventoryView {
    pub open spec fn wf(self) -> bool {
        match self {
            InventoryView::Empty => true,
            InventoryView::Left(l) => l.wf(),
            InventoryView::Right(r) => r.wf(),
            InventoryView::Both(l, r) => l.wf() && r.wf(),
        }
    }

    /// The tool used when facing `o`: a single tool is used facing either way; with
    /// both hands full, the one held on the facing side.
    pub open spec fn active(self, o: Orientation) -> Option<ToolView> {
        match (o, self) {
            (_, InventoryView::Left(l)) => Some(l),
            (_, InventoryView::Right(r)) => Some(r),
            (Orientation::Left, InventoryView::Both(l, _)) => Some(l),
            (Orientation::Right, InventoryView::Both(_, r)) => Some(r),
            _ => None,
        }
    }

    /// The inventory after the tool used when facing `o` has swung.
    pub open spec fn swung(self, o: Orientation, struck: bool) -> InventoryView {
        match (o, self) {
            (_, InventoryView::Left(l)) => InventoryView::Left(l.swung(struck)),
            (_, InventoryView::Right(r)) => InventoryView::Right(r.swung(struck)),
            (Orientation::Left, InventoryView::Both(l, r)) => InventoryView::Both(l.swung(struck), r),
            (Orientation::Right, InventoryView::Both(l, r)) => InventoryView::Both(l, r.swung(struck)),
            _ => self,
        }
    }

    /// The inventory without its spent tools.
    pub open spec fn dropped_spent(self) -> InventoryView {
        match self {
            InventoryView::Empty => InventoryView::Empty,
            InventoryView::Left(l) => if l.spent() { InventoryView::Empty } else { self },
            InventoryView::Right(r) => if r.spent() { InventoryView::Empty } else { self },
            InventoryView::Both(l, r) => if l.spent() && r.spent() {
                InventoryView::Empty
            } else if l.spent() {
                InventoryView::Right(r)
            } else if r.spent() {
                InventoryView::Left(l)
            } else {
                self
            },
        }
    }

    /// The inventory with `t` added: into the left hand when both are free, else into the
    /// free hand; `None` when both hands are full. Left-hand tools face left, right-hand
    /// tools face right.
    pub open spec fn with_tool(self, t: ToolView) -> Option<InventoryView> {
        match self {
            InventoryView::Empty => Some(InventoryView::Left(t.facing(Orientation::Left))),
            InventoryView::Left(l) => Some(InventoryView::Both(l.facing(Orientation::Left), t.facing(Orientation::Right))),
            InventoryView::Right(r) => Some(InventoryView::Both(t.facing(Orientation::Left), r.facing(Orientation::Right))),
            InventoryView::Both(_, _) => None,
        }
    }

    /// The inventory with the hands swapped, each tool turned to its new side.
    pub open spec fn switched(self) -> InventoryView {
        match self {
            InventoryView::Empty => InventoryView::Empty,
            InventoryView::Left(l) => InventoryView::Right(l.facing(Orientation::Right)),
            InventoryView::Right(r) => InventoryView::Left(r.facing(Orientation::Left)),
            InventoryView::Both(l, r) => InventoryView::Both(r.facing(Orientation::Left), l.facing(Orientation::Right)),
        }
    }

    /// Every tool's swing animation ticked once.
    pub open spec fn ticked(self) -> InventoryView {
        match self {
            InventoryView::Empty => InventoryView::Empty,
            InventoryView::Left(l) => InventoryView::Left(l.ticked()),
            InventoryView::Right(r) => InventoryView::Right(r.ticked()),
            InventoryView::Both(l, r) => InventoryView::Both(l.ticked(), r.ticked()),
        }
    }
}

/// Five animations, one per health band from healthy to nearly dead.
pub type AnimationSet = (Animation, Animation, Animation, Animation, Animation);

/// The `k`-th animation of a set.
pub open spec fn nth_animation(set: AnimationSet, k: int) -> Animation {
    if k == 0 {
        set.0
    } else if k == 1 {
        set.1
    } else if k == 2 {
        set.2
    } else if k == 3 {
        set.3
    } else {
        set.4
    }
}

pub open spec fn animation_set_wf(set: AnimationSet) -> bool {
    forall|k: int| 0 <= k < 5 ==> #[trigger] nth_animation(set, k).wf()
}

/// `b` is `a` one frame on.
pub open spec fn animation_ticked(a: Animation, b: Animation) -> bool {
    &&& b.frames@ == a.frames@
    &&& b.current == a.frames@[a.index as int]
    &&& b.index == if a.index + 1 >= a.frames@.len() { 0 } else { a.index + 1 }
}

pub open spec fn animation_same(a: Animation, b: Animation) -> bool {
    a.frames@ == b.frames@ && a.current == b.current && a.index == b.index
}

/// Set `b` is set `a` with animation `k` one frame on and the others unchanged.
pub open spec fn set_ticked(a: AnimationSet, b: AnimationSet, k: int) -> bool {
    forall|i: int| 0 <= i < 5 ==> if i == k {
        animation_ticked(#[trigger] nth_animation(a, i), nth_animation(b, i))
    } else {
        animation_same(nth_animation(a, i), nth_animation(b, i))
    }
}

/// Which of the five health bands `hp` falls in: above 800, 600, 400, 200, or the rest.
pub open spec fn hp_band(hp: int) -> int {
    if hp > 800 {
        0
    } else if hp > 600 {
        1
    } else if hp > 400 {
        2
    } else if hp > 200 {
        3
    } else {
        4
    }
}

/// The actor's collision rectangle when standing at `pos`: the lower fifth of its
/// scaled sprite, 12 pixels narrower on each side.
pub open spec fn collision_rect_at(dims: Vec2, pos: Vec2) -> Rect {
    Rect {
        x: (pos.x + 12) as i64,
        y: (pos.y + 8 * dims.y / 5) as i64,
        width: (2 * dims.x - 24) as i64,
        height: (2 * dims.y / 5) as i64,
    }
}

/// The area a swing reaches: 32 by 48 pixels beside the actor on the side it faces.
pub open spec fn tool_rect_at(dims: Vec2, pos: Vec2, o: Orientation) -> Rect {
    Rect {
        x: (if o == Orientation::Left { pos.x - 32 } else { pos.x + 2 * dims.x }) as i64,
        y: (pos.y + 25) as i64,
        width: 32,
        height: 48,
    }
}

/// Whether a swing of a `kind` tool breaks tile `t`: a static, destroyable tile
/// showing the object that tool is made for.
pub open spec fn strikes(kind: ToolKind, t: TileView) -> bool {
    t.kind == TileKind::Static && t.has(Tags::Destroyable) && t.frames[0] == target_id(kind)
}

pub open spec fn strike_filter(kind: ToolKind) -> spec_fn((TileView, Vec2)) -> bool {
    |h: (TileView, Vec2)| strikes(kind, h.0)
}

/// The tiles a `kind` tool swung over `r` breaks on the first `l` layers, layer by
/// layer in scan order, with their origins.
pub open spec fn marks(map: &TiledMap, r: Rect, kind: ToolKind, l: int) -> Seq<(TileView, Vec2)>
    decreases l,
{
    if l <= 0 {
        Seq::empty()
    } else {
        marks(map, r, kind, l - 1) + hits(map.cells()[l - 1], r).filter(strike_filter(kind))
    }
}

fn strikes_tile(kind: ToolKind, tile: &Tile) -> (r: bool)
    ensures
        r == strikes(kind, tile@),
{
    let target: TextureID = match kind {
        ToolKind::Axe => PALM_ID,
        ToolKind::Pickaxe => STONE_ID,
        ToolKind::Shovel => PILE_ID,
    };
    match tile {
        Tile::Static(id, _) => *id == target && tile.has_tag(Tags::Destroyable),
        _ => false,
    }
}

/// A fresh tool of `kind` over `frames`: one use left, not swinging.
pub open spec fn fresh_tool(kind: ToolKind, frames: Seq<TextureHandle>) -> ToolView {
    ToolView { kind, orientation: Orientation::Left, frames, current: frames[0], index: 0, uses: 1, running: false }
}

/// The inventory and health after taking an item of type `t`, or `None` when it cannot be taken.
pub open spec fn taken(
    inv: InventoryView,
    hp: int,
    t: ItemType,
    axe: Seq<TextureHandle>,
    pickaxe: Seq<TextureHandle>,
    shovel: Seq<TextureHandle>,
) -> Option<(InventoryView, int)> {
    let tool = match t {
        ItemType::Axe => fresh_tool(ToolKind::Axe, axe),
        ItemType::Pickaxe => fresh_tool(ToolKind::Pickaxe, pickaxe),
        _ => fresh_tool(ToolKind::Shovel, shovel),
    };
    if t == ItemType::Gear {
        Some((inv, MAX_HP as int))
    } else {
        match inv.with_tool(tool) {
            Some(i) => Some((i, hp)),
            None => None,
        }
    }
}

/// Offers the items from index `i` on, in order, to an actor whose collision
/// rectangle is `reach`: each overlapping item that can be taken is taken, every other
/// item is kept. The result is the final inventory, health and kept items.
pub open spec fn pickup_from(
    inv: InventoryView,
    hp: int,
    kept: Seq<Item>,
    items: Seq<Item>,
    reach: Rect,
    i: int,
    axe: Seq<TextureHandle>,
    pickaxe: Seq<TextureHandle>,
    shovel: Seq<TextureHandle>,
) -> (InventoryView, int, Seq<Item>)
    decreases items.len() - i,
{
    if i < 0 || i >= items.len() {
        (inv, hp, kept)
    } else {
        let it = items[i];
        if it.bounds().overlaps_spec(reach) {
            match taken(inv, hp, it.item_type, axe, pickaxe, shovel) {
                Some((inv2, hp2)) => pickup_from(inv2, hp2, kept, items, reach, i + 1, axe, pickaxe, shovel),
                None => pickup_from(inv, hp, kept.push(it), items, reach, i + 1, axe, pickaxe, shovel),
            }
        } else {
            pickup_from(inv, hp, kept.push(it), items, reach, i + 1, axe, pickaxe, shovel)
        }
    }
}

/// The actor: where it stands, its sprite size, its walk, animations, facing, tools and health.
#[derive(Debug)]
pub struct Player {
    pub pos: Vec2,
    /// Thousandths of a pixel walked but not yet taken, on each axis.
    pub carry: Vec2,
    pub dimensions: Vec2,
    pub movement: Movement,
    pub idle: AnimationSet,
    pub run: AnimationSet,
    pub orientation: Orientation,
    pub inventory: Inventory,
    pub hp: i32,
}

fn tick_band(set: &mut AnimationSet, k: usize)
    requires
        animation_set_wf(*old(set)),
        k < 5,
    ensures
        set_ticked(*old(set), *final(set), k as int),
        animation_set_wf(*final(set)),
{
    proof {
        assert(nth_animation(*set, 0).wf());
        assert(nth_animation(*set, 1).wf());
        assert(nth_animation(*set, 2).wf());
        assert(nth_animation(*set, 3).wf());
        assert(nth_animation(*set, 4).wf());
    }
    if k == 0 {
        set.0.update();
    } else if k == 1 {
        set.1.update();
    } else if k == 2 {
        set.2.update();
    } else if k == 3 {
        set.3.update();
    } else {
        set.4.update();
    }
    proof {
        assert(nth_animation(*set, 0).wf());
        assert(nth_animation(*set, 1).wf());
        assert(nth_animation(*set, 2).wf());
        assert(nth_animation(*set, 3).wf());
        assert(nth_animation(*set, 4).wf());
    }
}

fn band_current(set: &AnimationSet, k: usize) -> (r: TextureHandle)
    requires
        k < 5,
    ensures
        r == nth_animation(*set, k as int).current,
{
    if k == 0 {
        set.0.current
    } else if k == 1 {
        set.1.current
    } else if k == 2 {
        set.2.current
    } else if k == 3 {
        set.3.current
    } else {
        set.4.current
    }
}

fn band_of(hp: i32) -> (r: usize)
    ensures
        r == hp_band(hp as int),
{
    if hp > 800 {
        0
    } else if hp > 600 {
        1
    } else if hp > 400 {
        2
    } else if hp > 200 {
        3
    } else {
        4
    }
}

impl Player {
    pub open spec fn wf(&self) -> bool {
        &&& -WORLD_LIMIT <= self.pos.x <= WORLD_LIMIT
        &&& -WORLD_LIMIT <= self.pos.y <= WORLD_LIMIT
        &&& -1000 < self.carry.x < 1000
        &&& -1000 < self.carry.y < 1000
        &&& 0 <= self.dimensions.x <= DIMENSION_LIMIT
        &&& 0 <= self.dimensions.y <= DIMENSION_LIMIT
        &&& self.movement.wf()
        &&& animation_set_wf(self.idle)
        &&& animation_set_wf(self.run)
        &&& self.inventory@.wf()
    }

    /// An actor at `pos` with a sprite of `dimensions`, healthy, facing right, empty-handed.
    pub fn new(
        pos: Vec2,
        dimensions: Vec2,
        idle: (&Vec<TextureHandle>, &Vec<TextureHandle>, &Vec<TextureHandle>, &Vec<TextureHandle>, &Vec<TextureHandle>),
        run: (&Vec<TextureHandle>, &Vec<TextureHandle>, &Vec<TextureHandle>, &Vec<TextureHandle>, &Vec<TextureHandle>),
    ) -> (r: Player)
        requires
            -WORLD_LIMIT <= pos.x <= WORLD_LIMIT,
            -WORLD_LIMIT <= pos.y <= WORLD_LIMIT,
            0 <= dimensions.x <= DIMENSION_LIMIT,
            0 <= dimensions.y <= DIMENSION_LIMIT,
            idle.0@.len() > 0 && idle.1@.len() > 0 && idle.2@.len() > 0 && idle.3@.len() > 0 && idle.4@.len() > 0,
            run.0@.len() > 0 && run.1@.len() > 0 && run.2@.len() > 0 && run.3@.len() > 0 && run.4@.len() > 0,
        ensures
            r.wf(),
            r.pos == pos,
            r.carry == (Vec2 { x: 0, y: 0 }),
            r.dimensions == dimensions,
            r.movement == (Movement { direction: Vec2 { x: 0, y: 0 }, speed: RUN_SPEED }),
            r.orientation == Orientation::Right,
            r.inventory@ == InventoryView::Empty,
            r.hp == MAX_HP,
            r.idle.0.frames@ == idle.0@ && r.idle.1.frames@ == idle.1@ && r.idle.2.frames@ == idle.2@,
            r.idle.3.frames@ == idle.3@ && r.idle.4.frames@ == idle.4@,
            r.run.0.frames@ == run.0@ && r.run.1.frames@ == run.1@ && r.run.2.frames@ == run.2@,
            r.run.3.frames@ == run.3@ && r.run.4.frames@ == run.4@,
    {
        let r = Player {
            pos,
            carry: Vec2 { x: 0, y: 0 },
            dimensions,
            movement: Movement { direction: Vec2 { x: 0, y: 0 }, speed: RUN_SPEED },
            idle: (Animation::new(idle.0), Animation::new(idle.1), Animation::new(idle.2), Animation::new(idle.3), Animation::new(idle.4)),
            run: (Animation::new(run.0), Animation::new(run.1), Animation::new(run.2), Animation::new(run.3), Animation::new(run.4)),
            orientation: Orientation::Right,
            inventory: Inventory::Empty,
            hp: MAX_HP,
        };
        assert(animation_set_wf(r.idle)) by {
            assert forall|k: int| 0 <= k < 5 implies #[trigger] nth_animation(r.idle, k).wf() by {}
        }
        assert(animation_set_wf(r.run)) by {
            assert forall|k: int| 0 <= k < 5 implies #[trigger] nth_animation(r.run, k).wf() by {}
        }
        r
    }

    /// The rectangle that collides with the map and with items.
    pub fn get_collision_rect(&self) -> (r: Rect)
        requires
            self.wf(),
        ensures
            r == collision_rect_at(self.dimensions, self.pos),
    {
        collision_rect(self.dimensions, self.pos)
    }

    /// The rectangle a swing reaches.
    pub fn get_tool_collision_rect(&self) -> (r: Rect)
        requires
            self.wf(),
        ensures
            r == tool_rect_at(self.dimensions, self.pos, self.orientation),
    {
        match self.orientation {
            Orientation::Left => Rect::new(self.pos.x - 32, self.pos.y + 25, 32, 48),
            Orientation::Right => Rect::new(self.pos.x + 2 * self.dimensions.x, self.pos.y + 25, 32, 48),
        }
    }

    pub fn up(&mut self)
        ensures
            final(self).movement.direction == (Vec2 { y: -1i64, ..old(self).movement.direction }),
            final(self).movement.speed == old(self).movement.speed,
            final(self).orientation == old(self).orientation,
    {
        self.movement.up();
    }

    pub fn down(&mut self)
        ensures
            final(self).movement.direction == (Vec2 { y: 1, ..old(self).movement.direction }),
            final(self).movement.speed == old(self).movement.speed,
            final(self).orientation == old(self).orientation,
    {
        self.movement.down();
    }

    /// Walks left and turns to face left.
    pub fn left(&mut self)
        ensures
            final(self).movement.direction == (Vec2 { x: -1i64, ..old(self).movement.direction }),
            final(self).movement.speed == old(self).movement.speed,
            final(self).orientation == Orientation::Left,
    {
        self.movement.left();
        self.orientation = Orientation::Left;
    }

    /// Walks right and turns to face right.
    pub fn right(&mut self)
        ensures
            final(self).movement.direction == (Vec2 { x: 1, ..old(self).movement.direction }),
            final(self).movement.speed == old(self).movement.speed,
            final(self).orientation == Orientation::Right,
    {
        self.movement.right();
        self.orientation = Orientation::Right;
    }

    /// Swaps the tools between the hands.
    pub fn switch_tools(&mut self)
        requires
            old(self).wf(),
        ensures
            final(self).wf(),
            final(self).inventory@ == old(self).inventory@.switched(),
            final(self).pos == old(self).pos,
            final(self).carry == old(self).carry,
            final(self).dimensions == old(self).dimensions,
            final(self).movement == old(self).movement,
            final(self).idle == old(self).idle,
            final(self).run == old(self).run,
            final(self).hp == old(self).hp,
            final(self).orientation == old(self).orientation,
    {
        let mut inv = Inventory::Empty;
        std::mem::swap(&mut self.inventory, &mut inv);
        self.inventory = match inv {
            Inventory::Empty => Inventory::Empty,
            Inventory::Left(l) => {
                let mut l = l;
                l.set_orientation(Orientation::Right);
                Inventory::Right(l)
            },
            Inventory::Right(r) => {
                let mut r = r;
                r.set_orientation(Orientation::Left);
                Inventory::Left(r)
            },
            Inventory::Both(l, r) => {
                let mut l = l;
                let mut r = r;
                r.set_orientation(Orientation::Left);
                l.set_orientation(Orientation::Right);
                Inventory::Both(r, l)
            },
        };
    }

    /// Picks up `item`: a gear restores full health; a tool goes into a free hand,
    /// with its swing animation over the matching frames. Returns whether the item
    /// was taken; with both hands full a tool stays where it lies.
    pub fn add_tool(
        &mut self,
        item: &Item,
        axe_frames: &Vec<TextureHandle>,
        pickaxe_frames: &Vec<TextureHandle>,
        shovel_frames: &Vec<TextureHandle>,
    ) -> (r: bool)
        requires
            old(self).wf(),
            axe_frames@.len() > 0,
            pickaxe_frames@.len() > 0,
            shovel_frames@.len() > 0,
        ensures
            final(self).wf(),
            final(self).pos == old(self).pos,
            final(self).carry == old(self).carry,
            final(self).orientation == old(self).orientation,
            item.item_type == ItemType::Gear ==> {
                &&& r
                &&& final(self).hp == MAX_HP
                &&& final(self).inventory@ == old(self).inventory@
            },
            item.item_type != ItemType::Gear ==> {
                let (kind, frames) = match item.item_type {
                    ItemType::Axe => (ToolKind::Axe, axe_frames@),
                    ItemType::Pickaxe => (ToolKind::Pickaxe, pickaxe_frames@),
                    _ => (ToolKind::Shovel, shovel_frames@),
                };
                let fresh = ToolView {
                    kind,
                    orientation: Orientation::Left,
                    frames,
                    current: frames[0],
                    index: 0,
                    uses: 1,
                    running: false,
                };
                &&& final(self).hp == old(self).hp
                &&& match old(self).inventory@.with_tool(fresh) {
                    Some(inv) => r && final(self).inventory@ == inv,
                    None => !r && final(self).inventory@ == old(self).inventory@,
                }
            },
            match taken(old(self).inventory@, old(self).hp as int, item.item_type, axe_frames@, pickaxe_frames@, shovel_frames@) {
                Some((inv, hp)) => r && final(self).inventory@ == inv && final(self).hp == hp,
                None => !r && final(self).inventory@ == old(self).inventory@ && final(self).hp == old(self).hp,
            },
            final(self).dimensions == old(self).dimensions,
            final(self).movement == old(self).movement,
            final(self).idle == old(self).idle,
            final(self).run == old(self).run,
    {
        let (kind, frames) = match item.item_type {
            ItemType::Gear => {
                self.hp = MAX_HP;
                return true;
            },
            ItemType::Axe => (ToolKind::Axe, axe_frames),
            ItemType::Pickaxe => (ToolKind::Pickaxe, pickaxe_frames),
            ItemType::Shovel => (ToolKind::Shovel, shovel_frames),
        };
        let mut tool = Tool::fresh(kind, Orientation::Left, frames);
        let mut inv = Inventory::Empty;
        std::mem::swap(&mut self.inventory, &mut inv);
        match inv {
            Inventory::Empty => {
                self.inventory = Inventory::Left(tool);
            },
            Inventory::Left(l) => {
                let mut l = l;
                l.set_orientation(Orientation::Left);
                tool.set_orientation(Orientation::Right);
                self.inventory = Inventory::Both(l, tool);
            },
            Inventory::Right(r) => {
                let mut r = r;
                r.set_orientation(Orientation::Right);
                self.inventory = Inventory::Both(tool, r);
            },
            Inventory::Both(l, r) => {
                self.inventory = Inventory::Both(l, r);
                return false;
            },
        }
        true
    }

    /// Advances the idle and run animations of the current health band by one frame,
    /// and each tool's swing.
    pub fn animation_update(&mut self)
        requires
            old(self).wf(),
        ensures
            final(self).wf(),
            set_ticked(old(self).idle, final(self).idle, hp_band(old(self).hp as int)),
            set_ticked(old(self).run, final(self).run, hp_band(old(self).hp as int)),
            final(self).inventory@ == old(self).inventory@.ticked(),
            final(self).pos == old(self).pos,
            final(self).carry == old(self).carry,
            final(self).hp == old(self).hp,
            final(self).orientation == old(self).orientation,
    {
        let band = band_of(self.hp);
        tick_band(&mut self.idle, band);
        tick_band(&mut self.run, band);
        match &mut self.inventory {
            Inventory::Empty => {},
            Inventory::Left(l) => l.update(),
            Inventory::Right(r) => r.update(),
            Inventory::Both(l, r) => {
                l.update();
                r.update();
            },
        }
    }

    /// The texture to draw the actor with: the current frame of the run animation
    /// while walking, else of the idle one, in the current health band.
    pub fn current_texture(&self) -> (r: TextureHandle)
        ensures
            r == nth_animation(
                if self.movement.direction.x != 0 || self.movement.direction.y != 0 { self.run } else { self.idle },
                hp_band(self.hp as int),
            ).current,
    {
        let band = band_of(self.hp);
        if self.movement.moves() {
            band_current(&self.run, band)
        } else {
            band_current(&self.idle, band)
        }
    }

    /// -1 to draw the sprite mirrored (facing left), 1 otherwise.
    pub fn rotation_modifier(&self) -> (r: i32)
        ensures
            r == if self.orientation == Orientation::Left { -1i32 } else { 1i32 },
    {
        match self.orientation {
            Orientation::Left => -1,
            Orientation::Right => 1,
        }
    }
    /// Drops the tools that are spent.
    fn drop_spent_tools(&mut self)
        requires
            old(self).wf(),
        ensures
            final(self).wf(),
            final(self).inventory@ == old(self).inventory@.dropped_spent(),
            final(self).pos == old(self).pos,
            final(self).carry == old(self).carry,
            final(self).dimensions == old(self).dimensions,
            final(self).movement == old(self).movement,
            final(self).idle == old(self).idle,
            final(self).run == old(self).run,
            final(self).orientation == old(self).orientation,
            final(self).hp == old(self).hp,
    {
        let mut inv = Inventory::Empty;
        std::mem::swap(&mut self.inventory, &mut inv);
        self.inventory = match inv {
            Inventory::Empty => Inventory::Empty,
            Inventory::Left(l) => if l.spent() { Inventory::Empty } else { Inventory::Left(l) },
            Inventory::Right(r) => if r.spent() { Inventory::Empty } else { Inventory::Right(r) },
            Inventory::Both(l, r) => if l.spent() && r.spent() {
                Inventory::Empty
            } else if l.spent() {
                Inventory::Right(r)
            } else if r.spent() {
                Inventory::Left(l)
            } else {
                Inventory::Both(l, r)
            },
        };
    }

    /// Picks up, in order, the items that overlap the actor's collision rectangle and
    /// that it can take; the others stay in `items`, in their order.
    pub fn pick_up_items(
        &mut self,
        items: &mut Vec<Item>,
        axe_frames: &Vec<TextureHandle>,
        pickaxe_frames: &Vec<TextureHandle>,
        shovel_frames: &Vec<TextureHandle>,
    )
        requires
            old(self).wf(),
            axe_frames@.len() > 0,
            pickaxe_frames@.len() > 0,
            shovel_frames@.len() > 0,
        ensures
            final(self).wf(),
            final(self).pos == old(self).pos,
            final(self).carry == old(self).carry,
            final(self).orientation == old(self).orientation,
            (final(self).inventory@, final(self).hp as int, final(items)@) == pickup_from(
                old(self).inventory@,
                old(self).hp as int,
                Seq::empty(),
                old(items)@,
                collision_rect_at(old(self).dimensions, old(self).pos),
                0,
                axe_frames@,
                pickaxe_frames@,
                shovel_frames@,
            ),
    {
        let reach = self.get_collision_rect();
        let mut all: Vec<Item> = Vec::new();
        std::mem::swap(items, &mut all);
        let mut i: usize = 0;
        while i < all.len()
            invariant
                self.wf(),
                axe_frames@.len() > 0,
                pickaxe_frames@.len() > 0,
                shovel_frames@.len() > 0,
                self.pos == old(self).pos,
                self.carry == old(self).carry,
                self.dimensions == old(self).dimensions,
                self.orientation == old(self).orientation,
                reach == collision_rect_at(old(self).dimensions, old(self).pos),
                all@ == old(items)@,
                0 <= i <= all@.len(),
                pickup_from(self.inventory@, self.hp as int, items@, all@, reach, i as int, axe_frames@, pickaxe_frames@, shovel_frames@)
                    == pickup_from(old(self).inventory@, old(self).hp as int, Seq::empty(), all@, reach, 0, axe_frames@, pickaxe_frames@, shovel_frames@),
            decreases all.len() - i,
        {
            let it = all[i];
            if it.collision_with_rec(&reach) {
                if !self.add_tool(&it, axe_frames, pickaxe_frames, shovel_frames) {
                    items.push(it);
                }
            } else {
                items.push(it);
            }
            i += 1;
        }
    }

    /// One frame of walking: sets the speed for the current health, moves as far as
    /// the barriers allow (sliding along them), drops spent tools, and takes one point
    /// of health if the actor moved. Whole pixels are walked; the fraction left over
    /// is carried to the next frame, except on an axis the barriers held back. Returns `true` when the level is complete (a
    /// level exit was reached; the actor does not move) or when the actor moved
    /// with no health left.
    pub fn update(&mut self, frame_ms: u32, tiled_map: &TiledMap) -> (finished: bool)
        requires
            old(self).wf(),
            tiled_map.wf(),
        ensures
            final(self).wf(),
            final(self).dimensions == old(self).dimensions,
            final(self).orientation == old(self).orientation,
            final(self).idle == old(self).idle,
            final(self).run == old(self).run,
            old(self).hp >= 0 ==> final(self).hp >= 0,
            final(self).movement == (Movement {
                speed: if old(self).hp <= TIRED_HP { TIRED_SPEED } else { RUN_SPEED },
                ..old(self).movement
            }),
            ({
                let target = tentative(old(self).pos, old(self).carry, final(self).movement, frame_ms as int);
                let rest = leftover(old(self).carry, final(self).movement, frame_ms as int);
                if reaches_goal(tiled_map, collision_rect_at(old(self).dimensions, target)) {
                    &&& finished
                    &&& final(self).pos == old(self).pos
                    &&& final(self).carry == old(self).carry
                    &&& final(self).hp == old(self).hp
                    &&& final(self).inventory@ == old(self).inventory@
                } else {
                    &&& final(self).pos == resolve(tiled_map, old(self).dimensions, old(self).pos, target)
                    &&& final(self).carry == (Vec2 {
                        x: if final(self).pos.x == target.x { rest.x } else { 0 },
                        y: if final(self).pos.y == target.y { rest.y } else { 0 },
                    })
                    &&& final(self).inventory@ == old(self).inventory@.dropped_spent()
                    &&& if final(self).pos != old(self).pos {
                        if old(self).hp > 0 {
                            final(self).hp == old(self).hp - 1 && !finished
                        } else {
                            final(self).hp == old(self).hp && finished
                        }
                    } else {
                        final(self).hp == old(self).hp && !finished
                    }
                }
            }),
    {
        let start = self.pos;
        self.movement.speed = if self.hp <= TIRED_HP { TIRED_SPEED } else { RUN_SPEED };
        let (target, rest) = tentative_position(start, self.carry, self.movement, frame_ms);
        let dims = self.dimensions;
        if goal_hit(tiled_map, &collision_rect(dims, target)) {
            return true;
        }
        let mut pos = target;
        if barrier_hit(tiled_map, &collision_rect(dims, pos)) {
            pos = Vec2 { x: target.x, y: start.y };
            if barrier_hit(tiled_map, &collision_rect(dims, pos)) {
                pos = Vec2 { x: start.x, y: target.y };
                if barrier_hit(tiled_map, &collision_rect(dims, pos)) {
                    pos = start;
                }
            }
        }
        if barrier_hit(tiled_map, &collision_rect(dims, pos)) {
            pos = start;
        }
        self.pos = pos;
        self.carry = Vec2 {
            x: if pos.x == target.x { rest.x } else { 0 },
            y: if pos.y == target.y { rest.y } else { 0 },
        };
        self.drop_spent_tools();
        if self.pos != start {
            if self.hp > 0 {
                self.hp -= 1;
            } else {
                return true;
            }
        }
        false
    }

    /// The kind of the tool used when facing the current way, if any tool is held.
    fn active_kind(&self) -> (r: Option<ToolKind>)
        ensures
            r == match self.inventory@.active(self.orientation) {
                Some(t) => Some(t.kind),
                None => None::<ToolKind>,
            },
    {
        match &self.inventory {
            Inventory::Empty => None,
            Inventory::Left(t) => Some(t.kind()),
            Inventory::Right(t) => Some(t.kind()),
            Inventory::Both(l, r) => match self.orientation {
                Orientation::Left => Some(l.kind()),
                Orientation::Right => Some(r.kind()),
            },
        }
    }

    /// Starts the swing of the tool used when facing the current way; a swing that
    /// struck something costs that tool one use.
    fn swing(&mut self, struck: bool)
        requires
            old(self).wf(),
        ensures
            final(self).wf(),
            final(self).inventory@ == old(self).inventory@.swung(old(self).orientation, struck),
            final(self).pos == old(self).pos,
            final(self).carry == old(self).carry,
            final(self).dimensions == old(self).dimensions,
            final(self).movement == old(self).movement,
            final(self).idle == old(self).idle,
            final(self).run == old(self).run,
            final(self).orientation == old(self).orientation,
            final(self).hp == old(self).hp,
    {
        let o = self.orientation;
        match &mut self.inventory {
            Inventory::Empty => {},
            Inventory::Left(t) => {
                t.use_tool();
                if struck {
                    t.spend_use();
                }
            },
            Inventory::Right(t) => {
                t.use_tool();
                if struck {
                    t.spend_use();
                }
            },
            Inventory::Both(l, r) => match o {
                Orientation::Left => {
                    l.use_tool();
                    if struck {
                        l.spend_use();
                    }
                },
                Orientation::Right => {
                    r.use_tool();
                    if struck {
                        r.spend_use();
                    }
                },
            },
        }
    }

    /// Swings the tool used when facing the current way over the area beside the
    /// actor. Returns the tiles it breaks (static, destroyable, and showing the
    /// object that tool is made for), layer by layer, each with its origin; a swing
    /// that breaks something costs the tool one use.
    pub fn use_tool(&mut self, tiled_map: &TiledMap) -> (marked: Vec<(Tile, Vec2)>)
        requires
            old(self).wf(),
            tiled_map.wf(),
        ensures
            final(self).wf(),
            hits_view(marked@) == match old(self).inventory@.active(old(self).orientation) {
                Some(t) => marks(tiled_map, tool_rect_at(old(self).dimensions, old(self).pos, old(self).orientation), t.kind, tiled_map.layers as int),
                None => Seq::empty(),
            },
            final(self).inventory@ == old(self).inventory@.swung(old(self).orientation, marked@.len() > 0),
            final(self).pos == old(self).pos,
            final(self).carry == old(self).carry,
            final(self).dimensions == old(self).dimensions,
            final(self).movement == old(self).movement,
            final(self).orientation == old(self).orientation,
            final(self).hp == old(self).hp,
    {
        let kind = self.active_kind();
        let rect = self.get_tool_collision_rect();
        let mut marked: Vec<(Tile, Vec2)> = Vec::new();
        if let Some(k) = kind {
            let mut layer: i32 = 0;
            while layer < tiled_map.layers
                invariant
                    tiled_map.wf(),
                    0 <= layer <= tiled_map.layers,
                    hits_view(marked@) == marks(tiled_map, rect, k, layer as int),
                decreases tiled_map.layers - layer,
            {
                let ghost found = hits(tiled_map.cells()[layer as int], rect);
                let ghost p = strike_filter(k);
                if let Some(v) = tiled_map.get_collision_tiles_with_layer(layer, &rect) {
                    let mut i: usize = 0;
                    while i < v.len()
                        invariant
                            0 <= i <= v@.len(),
                            found == hits(tiled_map.cells()[layer as int], rect),
                            p == strike_filter(k),
                            hits_view(v@) == found,
                            hits_view(marked@) == marks(tiled_map, rect, k, layer as int) + found.subrange(0, i as int).filter(p),
                        decreases v.len() - i,
                    {
                        let ghost before = marked@;
                        proof {
                            assert(found.subrange(0, i + 1) == found.subrange(0, i as int).push(found[i as int]));
                            found.subrange(0, i as int).lemma_filter_push(found[i as int], p);
                            assert(found[i as int] == (v@[i as int].0@, v@[i as int].1));
                        }
                        if strikes_tile(k, &v[i].0) {
                            let t = v[i].0.clone();
                            marked.push((t, v[i].1));
                            assert(hits_view(marked@) =~= hits_view(before).push((t@, v@[i as int].1)));
                        }
                        i += 1;
                    }
                    assert(found.subrange(0, v@.len() as int) == found);
                } else {
                    assert(found =~= Seq::<(TileView, Vec2)>::empty());
                    assert(found.filter(p) =~= Seq::<(TileView, Vec2)>::empty());
                }
                layer += 1;
            }
        }
        self.swing(marked.len() > 0);
        marked
    }
}

/// The actor's collision rectangle at `pos`.
fn collision_rect(dims: Vec2, pos: Vec2) -> (r: Rect)
    requires
        -WORLD_LIMIT <= pos.x <= WORLD_LIMIT,
        -WORLD_LIMIT <= pos.y <= WORLD_LIMIT,
        0 <= dims.x <= DIMENSION_LIMIT,
        0 <= dims.y <= DIMENSION_LIMIT,
    ensures
        r == collision_rect_at(dims, pos),
{
    Rect::new(pos.x + 12, pos.y + 8 * dims.y / 5, 2 * dims.x - 24, 2 * dims.y / 5)
}

impl Collision for Player {
    /// The unscaled sprite box at the actor's position.
    open spec fn bounds(&self) -> Rect {
        Rect { x: self.pos.x, y: self.pos.y, width: self.dimensions.x, height: self.dimensions.y }
    }

    fn collision_with_rec(&self, other: &Rect) -> (r: bool) {
        Rect::new(self.pos.x, self.pos.y, self.dimensions.x, self.dimensions.y).overlaps(other)
    }
}


/// A swing marks exactly the right tiles: an entry is marked if and only if it is a
/// tile of some layer overlapping the swept area that the tool breaks (static,
/// destroyable, showing the tool's object); every other tile stays unmarked.
pub proof fn lemma_marks_exact(map: &TiledMap, r: Rect, kind: ToolKind, e: (TileView, Vec2))
    requires
        0 <= map.layers,
    ensures
        marks(map, r, kind, map.layers as int).contains(e) <==> (strikes(kind, e.0) && exists|l: int|
            0 <= l < map.layers && #[trigger] hits(map.cells()[l], r).contains(e)),
{
    lemma_marks_upto(map, r, kind, e, map.layers as int);
}

proof fn lemma_marks_upto(map: &TiledMap, r: Rect, kind: ToolKind, e: (TileView, Vec2), n: int)
    requires
        0 <= n,
    ensures
        marks(map, r, kind, n).contains(e) <==> (strikes(kind, e.0) && exists|l: int|
            0 <= l < n && #[trigger] hits(map.cells()[l], r).contains(e)),
    decreases n,
{
    broadcast use vstd::seq_lib::group_filter_ensures;

    if n > 0 {
        lemma_marks_upto(map, r, kind, e, n - 1);
        let prev = marks(map, r, kind, n - 1);
        let found = hits(map.cells()[n - 1], r);
        let p = strike_filter(kind);
        let here = found.filter(p);
        assert(marks(map, r, kind, n) == prev + here);
        if (prev + here).contains(e) {
            let j = choose|j: int| 0 <= j < (prev + here).len() && (prev + here)[j] == e;
            if j >= prev.len() {
                assert(here[j - prev.len()] == e);
                assert(here.contains(e));
                found.lemma_filter_contains_rev(p, e);
                assert(p(here[j - prev.len()]));
                assert(hits(map.cells()[n - 1], r).contains(e));
            } else {
                assert(prev[j] == e);
            }
        }
        if strikes(kind, e.0) && exists|l: int| 0 <= l < n && #[trigger] hits(map.cells()[l], r).contains(e) {
            let l = choose|l: int| 0 <= l < n && #[trigger] hits(map.cells()[l], r).contains(e);
            if l == n - 1 {
                let j = choose|j: int| 0 <= j < found.len() && found[j] == e;
                assert(p(found[j]));
                assert(here.contains(found[j]));
                let k = choose|k: int| 0 <= k < here.len() && here[k] == e;
                assert((prev + here)[prev.len() + k] == e);
            } else {
                assert(prev.contains(e));
                let k = choose|k: int| 0 <= k < prev.len() && prev[k] == e;
                assert((prev + here)[k] == e);
            }
        }
    }
}


/// A filter keeps nothing of a sequence none of whose entries passes it.
proof fn lemma_filter_none<A>(s: Seq<A>, p: spec_fn(A) -> bool)
    requires
        forall|i: int| 0 <= i < s.len() ==> !p(#[trigger] s[i]),
    ensures
        s.filter(p) == Seq::<A>::empty(),
    decreases s.len(),
{
    if s.len() > 0 {
        let d = s.drop_last();
        assert forall|i: int| 0 <= i < d.len() implies !p(#[trigger] d[i]) by {
            assert(d[i] == s[i]);
        }
        lemma_filter_none(d, p);
        assert(s == d.push(s.last()));
        d.lemma_filter_push(s.last(), p);
    }
}

/// A filter keeps exactly the one entry of a sequence that passes it.
proof fn lemma_filter_single<A>(s: Seq<A>, p: spec_fn(A) -> bool, k: int)
    requires
        0 <= k < s.len(),
        p(s[k]),
        forall|i: int| 0 <= i < s.len() && i != k ==> !p(#[trigger] s[i]),
    ensures
        s.filter(p) == seq![s[k]],
    decreases s.len(),
{
    let d = s.drop_last();
    assert(s == d.push(s.last()));
    d.lemma_filter_push(s.last(), p);
    if k == s.len() - 1 {
        assert forall|i: int| 0 <= i < d.len() implies !p(#[trigger] d[i]) by {
            assert(d[i] == s[i]);
        }
        lemma_filter_none(d, p);
        assert(Seq::<A>::empty().push(s[k]) == seq![s[k]]);
    } else {
        assert forall|i: int| 0 <= i < d.len() && i != k implies !p(#[trigger] d[i]) by {
            assert(d[i] == s[i]);
        }
        assert(d[k] == s[k]);
        lemma_filter_single(d, p, k);
    }
}

/// A swing over an area where exactly one tile, on one layer, breaks under the tool
/// marks exactly that tile, with its origin, and nothing else.
pub proof fn lemma_single_mark(map: &TiledMap, r: Rect, kind: ToolKind, l0: int, i0: int)
    requires
        0 <= l0 < map.layers,
        0 <= i0 < hits(map.cells()[l0], r).len(),
        strikes(kind, hits(map.cells()[l0], r)[i0].0),
        forall|l: int, i: int|
            0 <= l < map.layers && 0 <= i < hits(map.cells()[l], r).len() && (l != l0 || i != i0)
                ==> !strikes(kind, (#[trigger] hits(map.cells()[l], r)[i]).0),
    ensures
        marks(map, r, kind, map.layers as int) == seq![hits(map.cells()[l0], r)[i0]],
{
    lemma_single_mark_upto(map, r, kind, l0, i0, map.layers as int);
}

proof fn lemma_single_mark_upto(map: &TiledMap, r: Rect, kind: ToolKind, l0: int, i0: int, n: int)
    requires
        0 <= l0 < map.layers,
        0 <= n <= map.layers,
        0 <= i0 < hits(map.cells()[l0], r).len(),
        strikes(kind, hits(map.cells()[l0], r)[i0].0),
        forall|l: int, i: int|
            0 <= l < map.layers && 0 <= i < hits(map.cells()[l], r).len() && (l != l0 || i != i0)
                ==> !strikes(kind, (#[trigger] hits(map.cells()[l], r)[i]).0),
    ensures
        marks(map, r, kind, n) == if n <= l0 { Seq::empty() } else { seq![hits(map.cells()[l0], r)[i0]] },
    decreases n,
{
    if n > 0 {
        lemma_single_mark_upto(map, r, kind, l0, i0, n - 1);
        let found = hits(map.cells()[n - 1], r);
        let p = strike_filter(kind);
        if n - 1 == l0 {
            assert forall|i: int| 0 <= i < found.len() && i != i0 implies !p(#[trigger] found[i]) by {
                assert(!strikes(kind, hits(map.cells()[n - 1], r)[i].0));
            }
            lemma_filter_single(found, p, i0);
            assert(Seq::<(TileView, Vec2)>::empty() + seq![found[i0]] == seq![found[i0]]);
        } else {
            assert forall|i: int| 0 <= i < found.len() implies !p(#[trigger] found[i]) by {
                assert(!strikes(kind, hits(map.cells()[n - 1], r)[i].0));
            }
            lemma_filter_none(found, p);
            assert(marks(map, r, kind, n - 1) + Seq::<(TileView, Vec2)>::empty() == marks(map, r, kind, n - 1));
        }
    }
}

} // verus!
