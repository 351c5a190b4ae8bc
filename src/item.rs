use vstd::prelude::*;

use crate::geometry::{Rect, Vec2};
use crate::tiled_map::TextureHandle;
use crate::trait_collision::Collision;

verus! {

/// What a pickup gives.
#[derive(Clone, Copy, Debug, PartialEq, Eq, Structural)]
pub enum ItemType {
    Axe,
    Pickaxe,
    Gear,
    Shovel,
}

/// A pickup lying in the world: where it is, its texture and extent, and what it gives.
#[derive(Clone, Copy, Debug, PartialEq, Eq, Structural)]
pub struct Item {
    pub position: Vec2,
    pub texture: TextureHandle,
    pub width: i64,
    pub height: i64,
    pub scale: i64,
    pub item_type: ItemType,
}

impl Item {
    /// An item whose extent is its texture's size times `scale`.
    pub fn new(position: Vec2, texture: TextureHandle, texture_width: i64, texture_height: i64, scale: i64, item_type: ItemType) -> (r: Self)
        requires
            i64::MIN <= texture_width * scale <= i64::MAX,
            i64::MIN <= texture_height * scale <= i64::MAX,
        ensures
            r.position == position,
            r.texture == texture,
            r.width == texture_width * scale,
            r.height == texture_height * scale,
            r.scale == scale,
            r.item_type == item_type,
    {
        Item {
            position,
            texture,
            width: texture_width * scale,
            height: texture_height * scale,
            scale,
            item_type,
        }
    }
}

impl Collision for Item {
    open spec fn bounds(&self) -> Rect {
        Rect { x: self.position.x, y: self.position.y, width: self.width, height: self.height }
    }

    fn collision_with_rec(&self, other: &Rect) -> (r: bool) {
        Rect::new(self.position.x, self.position.y, self.width, self.height).overlaps(other)
    }
}

} // verus!
