use island_maze::geometry::{Rect, Vec2};
use island_maze::maze::{MazeConfig, MazeError, cell_position};
use island_maze::tile::{Tags, Tile, new_palme};
use island_maze::tiled_map::TiledMap;

fn config(w: i32, h: i32, ground: &str, objects: &str) -> MazeConfig {
    MazeConfig {
        size: (w, h),
        player: (1, 1),
        axes: Vec::new(),
        pickaxes: Vec::new(),
        shovels: Vec::new(),
        gears: Vec::new(),
        ground: ground.to_string(),
        objects: objects.to_string(),
    }
}

#[test]
fn from_reads_codes_row_by_row() {
    let map = TiledMap::from(&config(3, 2, "012\n345", "6 00\r\n000")).unwrap();
    assert_eq!(map.layers, 2);
    assert_eq!(map.size_x, 3);
    assert_eq!(map.size_y, 2);
    assert_eq!(map.get_tile_id(0, 0, 0), Some(0));
    assert!(matches!(map.get_tile(0, 1, 0), Some(Tile::Animated(_, 0, _))));
    assert_eq!(map.get_tile_id(0, 2, 0), Some(1));
    assert_eq!(map.get_tile_id(0, 0, 1), Some(17));
    assert_eq!(map.get_tile_id(0, 1, 1), Some(2));
    assert_eq!(map.get_tile_id(0, 2, 1), Some(7));
    assert_eq!(map.get_tile_id(1, 0, 0), Some(18));
    assert_eq!(map.get_tile_id(1, 1, 0), Some(0));
    let wall = map.get_tile(0, 0, 1).unwrap();
    assert!(wall.has_tag(Tags::Barrier));
    assert!(!wall.has_tag(Tags::Destroyable));
    let stone = map.get_tile(0, 2, 1).unwrap();
    assert!(stone.has_tag(Tags::Barrier) && stone.has_tag(Tags::Destroyable));
}

#[test]
fn from_rejects_short_ground() {
    let r = TiledMap::from(&config(2, 2, "000", "0000"));
    assert!(matches!(r, Err(MazeError::GroundTooShort)));
}

#[test]
fn from_rejects_unknown_code() {
    let r = TiledMap::from(&config(2, 2, "0090", "0000"));
    assert!(matches!(r, Err(MazeError::InvalidId('9'))));
}

#[test]
fn from_rejects_short_objects() {
    let r = TiledMap::from(&config(2, 2, "0000", "0 0\n0"));
    assert!(matches!(r, Err(MazeError::ObjectsTooShort)));
}

#[test]
fn from_reports_first_problem() {
    let r = TiledMap::from(&config(2, 2, "0x", "9"));
    assert!(matches!(r, Err(MazeError::InvalidId('x'))));
}

#[test]
fn from_empty_grid_is_fine() {
    let map = TiledMap::from(&config(0, 0, "", "")).unwrap();
    assert_eq!(map.get_tile_id(0, 0, 0), None);
}

#[test]
fn new_lays_sand_ringed_by_water() {
    let map = TiledMap::new(2, 20, 20);
    assert_eq!(map.tiles_textures_paths.len(), 25);
    assert_eq!(map.get_tile_id(0, 4, 4), Some(1));
    assert_eq!(map.get_tile_id(0, 14, 14), Some(1));
    assert!(matches!(map.get_tile(0, 3, 4), Some(Tile::Animated(_, 0, _))));
    assert!(matches!(map.get_tile(0, 15, 10), Some(Tile::Animated(_, 0, _))));
    let mut objects = 0;
    for x in 0..20 {
        for y in 0..20 {
            let id = map.get_tile_id(1, x, y).unwrap();
            assert!(id == 0 || id == 2 || id == 7);
            if id != 0 {
                objects += 1;
            }
        }
    }
    assert!(objects >= 1 && objects <= 40);
}

#[test]
fn new_places_random_objects_inside_the_grid() {
    // On a single cell every random draw lands on that cell, so it holds an object.
    let map = TiledMap::new(2, 1, 1);
    let id = map.get_tile_id(1, 0, 0).unwrap();
    assert!(id == 2 || id == 7);
}

#[test]
fn water_map_is_shifted_water() {
    let map = TiledMap::water(1, 3, 3);
    assert_eq!(map.shift_x, -320);
    assert_eq!(map.shift_y, -320);
    assert_eq!(map.tiles_textures_paths.len(), 4);
    match map.get_tile(0, 2, 2) {
        Some(Tile::Animated(frames, 0, _)) => assert_eq!(frames, vec![0, 1, 2, 3]),
        _ => panic!("water expected"),
    }
}

#[test]
fn set_tile_outside_is_ignored() {
    let mut map = TiledMap::from(&config(2, 2, "0000", "0000")).unwrap();
    map.set_tile(1, 5, 0, new_palme());
    map.set_tile(-1, 0, 0, new_palme());
    map.set_tile(2, 0, 0, new_palme());
    map.set_tile(1, 0, -1, new_palme());
    for x in 0..2 {
        for y in 0..2 {
            assert_eq!(map.get_tile_id(1, x, y), Some(0));
        }
    }
    map.set_tile(1, 1, 1, new_palme());
    assert_eq!(map.get_tile_id(1, 1, 1), Some(2));
    assert_eq!(map.get_tile_id(1, 2, 1), None);
    assert_eq!(map.get_tile_id(3, 0, 0), None);
}

#[test]
fn tile_texture_lookup() {
    let mut map = TiledMap::from(&config(2, 1, "02", "00")).unwrap();
    assert_eq!(map.get_tile_texture(0, 0, 0), None);
    map.add_tile_texture(0, 11);
    map.add_tile_texture(1, 12);
    assert_eq!(map.get_tile_texture(0, 0, 0), Some(11));
    assert_eq!(map.get_tile_texture(0, 1, 0), Some(12));
    assert_eq!(map.get_tile_texture(0, 2, 0), None);
}

#[test]
fn render_skips_unbound_textures() {
    let mut map = TiledMap::from(&config(2, 1, "02", "00")).unwrap();
    map.add_tile_texture(1, 5);
    let draws = map.render();
    assert_eq!(draws.len(), 1);
    assert_eq!(draws[0].texture, 5);
    assert_eq!(draws[0].position, Vec2::new(64, 0));
    assert_eq!(draws[0].scale, 2);
    map.add_tile_texture(0, 4);
    let draws = map.render();
    assert_eq!(draws.len(), 4);
    let textures: Vec<usize> = draws.iter().map(|d| d.texture).collect();
    assert_eq!(textures, vec![4, 5, 4, 4]);
    assert_eq!(draws[3].position, Vec2::new(64, 0));
}

#[test]
fn render_applies_shift() {
    let mut map = TiledMap::water(1, 1, 2);
    map.add_tile_texture(0, 9);
    let draws = map.render();
    assert_eq!(draws.len(), 2);
    assert_eq!(draws[1].position, Vec2::new(-320, -256));
}

#[test]
fn collision_query_lists_overlapping_cells() {
    let map = TiledMap::from(&config(3, 3, "000000000", "000040000")).unwrap();
    let hits = map.get_collision_tiles_with_layer(1, &Rect::new(60, 60, 10, 10)).unwrap();
    let origins: Vec<Vec2> = hits.iter().map(|h| h.1).collect();
    assert_eq!(origins, vec![Vec2::new(0, 0), Vec2::new(0, 64), Vec2::new(64, 0), Vec2::new(64, 64)]);
    assert!(matches!(hits[3].0, Tile::Static(2, _)));
    assert!(map.get_collision_tiles_with_layer(0, &Rect::new(-50, -50, 10, 10)).is_none());
    assert!(map.get_collision_tiles_with_layer(2, &Rect::new(60, 60, 10, 10)).is_none());
    assert!(map.get_collision_tiles_with_layer(-1, &Rect::new(60, 60, 10, 10)).is_none());
    // Touching edges do not overlap.
    let edge = map.get_collision_tiles_with_layer(0, &Rect::new(64, 64, 64, 64)).unwrap();
    assert_eq!(edge.len(), 1);
    assert_eq!(edge[0].1, Vec2::new(64, 64));
}

#[test]
fn hit_palm_starts_falling() {
    let mut map = TiledMap::from(&config(3, 3, "000000000", "000040000")).unwrap();
    let marked = vec![(new_palme(), Vec2::new(64, 64))];
    map.handle_hit_tiles(marked);
    match map.get_tile(1, 1, 1) {
        Some(Tile::AnimatedOnce(frames, 0, tags)) => {
            assert_eq!(frames, vec![2, 3, 4, 5, 6]);
            assert_eq!(tags, vec![Tags::Barrier]);
        },
        _ => panic!("falling palm expected"),
    }
}

#[test]
fn hit_outside_or_unknown_is_ignored() {
    let mut map = TiledMap::from(&config(2, 2, "0000", "0000")).unwrap();
    map.handle_hit_tiles(vec![
        (new_palme(), Vec2::new(-10, 0)),
        (new_palme(), Vec2::new(200, 0)),
        (Tile::Static(1, Vec::new()), Vec2::new(0, 0)),
    ]);
    for x in 0..2 {
        for y in 0..2 {
            assert_eq!(map.get_tile_id(1, x, y), Some(0));
        }
    }
}

#[test]
fn hit_stone_and_pile_sequences() {
    let mut map = TiledMap::from(&config(2, 1, "00", "56")).unwrap();
    let stone = map.get_tile(1, 0, 0).unwrap();
    let pile = map.get_tile(1, 1, 0).unwrap();
    map.handle_hit_tiles(vec![(stone, Vec2::new(10, 10)), (pile, Vec2::new(100, 63))]);
    match map.get_tile(1, 0, 0) {
        Some(Tile::AnimatedOnce(frames, 0, _)) => assert_eq!(frames, vec![7, 8, 9, 10, 11, 12]),
        _ => panic!("falling stone expected"),
    }
    match map.get_tile(1, 1, 0) {
        Some(Tile::AnimatedOnce(frames, 0, _)) => assert_eq!(frames, vec![18, 19, 20, 21, 22, 23, 24]),
        _ => panic!("falling pile expected"),
    }
}

#[test]
fn animation_waits_for_threshold() {
    let mut map = TiledMap::from(&config(1, 1, "1", "0")).unwrap();
    map.update_animated_tiles(100);
    map.update_animated_tiles(199);
    assert_eq!(map.get_tile_id(0, 0, 0), Some(0));
    map.update_animated_tiles(1);
    assert_eq!(map.get_tile_id(0, 0, 0), Some(1));
    assert_eq!(map.animation_counter, 0);
}

#[test]
fn looping_tile_wraps_after_its_length() {
    let mut map = TiledMap::from(&config(1, 1, "1", "0")).unwrap();
    let mut seen = Vec::new();
    for _ in 0..4 {
        map.update_animated_tiles(300);
        seen.push(map.get_tile_id(0, 0, 0).unwrap());
    }
    assert_eq!(seen, vec![1, 2, 3, 0]);
    assert!(map.get_tile(0, 0, 0).unwrap().has_tag(Tags::Barrier));
}

#[test]
fn falling_tile_holds_last_frame_and_drops_barrier() {
    let mut map = TiledMap::from(&config(1, 1, "0", "4")).unwrap();
    map.handle_hit_tiles(vec![(new_palme(), Vec2::new(0, 0))]);
    for step in 1..=3 {
        map.update_animated_tiles(300);
        assert_eq!(map.get_tile_id(1, 0, 0), Some(step));
        assert!(map.get_tile(1, 0, 0).unwrap().has_tag(Tags::Barrier));
    }
    map.update_animated_tiles(300);
    assert_eq!(map.get_tile_id(1, 0, 0), Some(4));
    assert!(!map.get_tile(1, 0, 0).unwrap().has_tag(Tags::Barrier));
    for _ in 0..3 {
        map.update_animated_tiles(300);
        assert_eq!(map.get_tile_id(1, 0, 0), Some(4));
        assert!(!map.get_tile(1, 0, 0).unwrap().has_tag(Tags::Barrier));
    }
    assert_eq!(map.get_tile(1, 0, 0).unwrap().texture_id(), 6);
}

#[test]
fn item_and_spawn_positions() {
    assert_eq!(cell_position((3, 2)), Vec2::new(192, 128));
    let c = config(1, 1, "0", "0");
    assert_eq!(c.player_position(), Vec2::new(96, 96));
}
