//! Tile-map, collision and tool-interaction core of a small island survival game.
//!
//! World coordinates are whole pixels; a grid cell is `TILE_WIDTH * SCALE` pixels
//! wide. Textures, sound and input stay with the caller: the map binds tile
//! texture ids to the caller's texture handles and hands back draw requests.

pub mod collision;
pub mod geometry;
pub mod item;
pub mod layer;
pub mod maze;
pub mod player;
pub mod tile;
pub mod tiled_map;
pub mod tool;
pub mod trait_collision;
