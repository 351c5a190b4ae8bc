use vstd::prelude::*;

use crate::player::{Animation, Orientation};
use crate::tiled_map::TextureHandle;
use crate::tile::{PALM_ID, PILE_ID, STONE_ID, TextureID, Tile, TileKind};

verus! {

/// Swings left before the tool is spent.
pub type UsesLeft = i32;
/// Whether the swing animation is playing.
pub type AnimationRunning = bool;

/// A hand tool: which way it faces, its swing animation, swings left, and whether it is swinging.
#[derive(Debug)]
pub enum Tool {
    Axe(Orientation, Animation, UsesLeft, AnimationRunning),
    Pickaxe(Orientation, Animation, UsesLeft, AnimationRunning),
    Shovel(Orientation, Animation, UsesLeft, AnimationRunning),
}

#[derive(Clone, Copy, Debug, PartialEq, Eq, Structural)]
pub enum ToolKind {
    Axe,
    Pickaxe,
    Shovel,
}

/// Mathematical model of a tool.
pub struct ToolView {
    pub kind: ToolKind,
    pub orientation: Orientation,
    pub frames: Seq<TextureHandle>,
    pub current: TextureHandle,
    pub index: int,
    pub uses: int,
    pub running: bool,
}

/// The texture id of the static object each tool breaks.
pub open spec fn target_id(kind: ToolKind) -> TextureID {
    match kind {
        ToolKind::Axe => PALM_ID,
        ToolKind::Pickaxe => STONE_ID,
        ToolKind::Shovel => PILE_ID,
    }
}

impl ToolView {
    pub open spec fn wf(self) -> bool {
        0 <= self.index < self.frames.len()
    }

    /// Spent: no swings left and no swing playing; such a tool leaves the inventory.
    pub open spec fn spent(self) -> bool {
        self.uses == 0 && !self.running
    }

    pub open spec fn facing(self, o: Orientation) -> ToolView {
        ToolView { orientation: o, ..self }
    }

    /// Starts a swing; a swing that struck something costs one use, never going below zero.
    pub open spec fn swung(self, struck: bool) -> ToolView {
        ToolView {
            running: true,
            uses: if struck && self.uses > 0 { self.uses - 1 } else { self.uses },
            ..self
        }
    }

    /// One animation tick: a running swing shows its next frame, and the swing ends
    /// when the frame counter is back at the start.
    pub open spec fn ticked(self) -> ToolView {
        let next_index = if self.index + 1 >= self.frames.len() { 0 } else { self.index + 1 };
        let t = if self.running {
            ToolView { current: self.frames[self.index], index: next_index, ..self }
        } else {
            self
        };
        if t.index == 0 {
            ToolView { running: false, ..t }
        } else {
            t
        }
    }
}

impl View for Tool {
    type V = ToolView;

    open spec fn view(&self) -> ToolView {
        match self {
            Tool::Axe(o, a, u, b) => ToolView {
                kind: ToolKind::Axe,
                orientation: *o,
                frames: a.frames@,
                current: a.current,
                index: a.index as int,
                uses: *u as int,
                running: *b,
            },
            Tool::Pickaxe(o, a, u, b) => ToolView {
                kind: ToolKind::Pickaxe,
                orientation: *o,
                frames: a.frames@,
                current: a.current,
                index: a.index as int,
                uses: *u as int,
                running: *b,
            },
            Tool::Shovel(o, a, u, b) => ToolView {
                kind: ToolKind::Shovel,
                orientation: *o,
                frames: a.frames@,
                current: a.current,
                index: a.index as int,
                uses: *u as int,
                running: *b,
            },
        }
    }
}

impl Tool {
    /// A fresh tool of `kind` with one swing, not swinging.
    pub fn fresh(kind: ToolKind, orientation: Orientation, frames: &Vec<TextureHandle>) -> (r: Tool)
        requires
            frames@.len() > 0,
        ensures
            r@ == (ToolView {
                kind,
                orientation,
                frames: frames@,
                current: frames@[0],
                index: 0,
                uses: 1,
                running: false,
            }),
    {
        let a = Animation::new(frames);
        match kind {
            ToolKind::Axe => Tool::Axe(orientation, a, 1, false),
            ToolKind::Pickaxe => Tool::Pickaxe(orientation, a, 1, false),
            ToolKind::Shovel => Tool::Shovel(orientation, a, 1, false),
        }
    }

    pub fn kind(&self) -> (r: ToolKind)
        ensures
            r == self@.kind,
    {
        match self {
            Tool::Axe(..) => ToolKind::Axe,
            Tool::Pickaxe(..) => ToolKind::Pickaxe,
            Tool::Shovel(..) => ToolKind::Shovel,
        }
    }

    /// Starts the swing animation.
    pub fn use_tool(&mut self)
        ensures
            final(self)@ == old(self)@.swung(false),
    {
        match self {
            Tool::Axe(_, _, _, running) => *running = true,
            Tool::Pickaxe(_, _, _, running) => *running = true,
            Tool::Shovel(_, _, _, running) => *running = true,
        }
    }

    /// Takes one use for a swing that struck something, never going below zero.
    pub fn spend_use(&mut self)
        ensures
            final(self)@ == (ToolView { uses: if old(self)@.uses > 0 { old(self)@.uses - 1 } else { old(self)@.uses }, ..old(self)@ }),
    {
        match self {
            Tool::Axe(_, _, uses, _) => if *uses > 0 { *uses = *uses - 1 },
            Tool::Pickaxe(_, _, uses, _) => if *uses > 0 { *uses = *uses - 1 },
            Tool::Shovel(_, _, uses, _) => if *uses > 0 { *uses = *uses - 1 },
        }
    }

    /// Turns the tool to face `o`.
    pub fn set_orientation(&mut self, o: Orientation)
        ensures
            final(self)@ == old(self)@.facing(o),
    {
        match self {
            Tool::Axe(or, _, _, _) => *or = o,
            Tool::Pickaxe(or, _, _, _) => *or = o,
            Tool::Shovel(or, _, _, _) => *or = o,
        }
    }

    /// Whether the tool has no swings left and is not swinging.
    pub fn spent(&self) -> (r: bool)
        ensures
            r == self@.spent(),
    {
        match self {
            Tool::Axe(_, _, u, b) => *u == 0 && !*b,
            Tool::Pickaxe(_, _, u, b) => *u == 0 && !*b,
            Tool::Shovel(_, _, u, b) => *u == 0 && !*b,
        }
    }

    /// Advances a running swing by one frame; the swing stops when its frame
    /// counter is back at the start.
    pub fn update(&mut self)
        requires
            old(self)@.wf(),
        ensures
            final(self)@ == old(self)@.ticked(),
            final(self)@.wf(),
    {
        match self {
            Tool::Axe(_, animation, _, running) => {
                if *running {
                    animation.update();
                }
                if animation.index == 0 {
                    *running = false;
                }
            },
            Tool::Pickaxe(_, animation, _, running) => {
                if *running {
                    animation.update();
                }
                if animation.index == 0 {
                    *running = false;
                }
            },
            Tool::Shovel(_, animation, _, running) => {
                if *running {
                    animation.update();
                }
                if animation.index == 0 {
                    *running = false;
                }
            },
        }
    }

    /// The texture of the swing frame now shown.
    pub fn current_frame(&self) -> (r: TextureHandle)
        ensures
            r == self@.current,
    {
        match self {
            Tool::Axe(_, a, _, _) => a.current,
            Tool::Pickaxe(_, a, _, _) => a.current,
            Tool::Shovel(_, a, _, _) => a.current,
        }
    }

    /// The world x at which the tool is drawn beside an actor standing at `player_x`:
    /// 32 pixels left of it when facing left, 64 pixels right of it when facing right.
    pub fn anchor_x(&self, player_x: i64) -> (r: i64)
        requires
            -1_000_000_000_000 <= player_x <= 1_000_000_000_000,
        ensures
            r == if self@.orientation == Orientation::Left { player_x - 32 } else { player_x + 64 },
    {
        let o = match self {
            Tool::Axe(o, _, _, _) => *o,
            Tool::Pickaxe(o, _, _, _) => *o,
            Tool::Shovel(o, _, _, _) => *o,
        };
        match o {
            Orientation::Left => player_x - 32,
            Orientation::Right => player_x + 64,
        }
    }
}


/// The sound a struck object makes.
#[derive(Clone, Copy, Debug, PartialEq, Eq, Structural)]
pub enum HitSound {
    Wood,
    Stone,
    Sand,
}

/// The sound of striking a static tile showing texture `id`, if it is an object a tool breaks.
pub open spec fn hit_sound_of(id: TextureID) -> Option<HitSound> {
    if id == PALM_ID {
        Some(HitSound::Wood)
    } else if id == STONE_ID {
        Some(HitSound::Stone)
    } else if id == PILE_ID {
        Some(HitSound::Sand)
    } else {
        None
    }
}

/// The sound of striking `tile`: wood for a palm, stone for a stone, sand for a pile.
pub fn hit_sound(tile: &Tile) -> (r: Option<HitSound>)
    ensures
        r == if tile@.kind == TileKind::Static { hit_sound_of(tile@.frames[0]) } else { None::<HitSound> },
{
    match tile {
        Tile::Static(id, _) => {
            if *id == PALM_ID {
                Some(HitSound::Wood)
            } else if *id == STONE_ID {
                Some(HitSound::Stone)
            } else if *id == PILE_ID {
                Some(HitSound::Sand)
            } else {
                None
            }
        },
        _ => None,
    }
}

} // verus!
