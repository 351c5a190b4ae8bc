use island_maze::geometry::{Rect, Vec2};
use island_maze::item::{Item, ItemType};
use island_maze::maze::MazeConfig;
use island_maze::player::{Animation, Inventory, Orientation, Player, MAX_HP};
use island_maze::tile::{Tags, Tile, new_palme, new_pile, new_stone};
use island_maze::tiled_map::TiledMap;
use island_maze::tool::{HitSound, Tool, hit_sound};
use island_maze::trait_collision::Collision;

fn map(w: i32, h: i32, ground: &str, objects: &str) -> TiledMap {
    TiledMap::from(&MazeConfig {
        size: (w, h),
        player: (0, 0),
        axes: Vec::new(),
        pickaxes: Vec::new(),
        shovels: Vec::new(),
        gears: Vec::new(),
        ground: ground.to_string(),
        objects: objects.to_string(),
    })
    .unwrap()
}

fn open_map() -> TiledMap {
    map(10, 10, &"0".repeat(100), &"0".repeat(100))
}

/// Open ground with a wall at cell (5, 4) on the object layer.
fn walled_map() -> TiledMap {
    let mut objects = "0".repeat(100);
    objects.replace_range(45..46, "3");
    map(10, 10, &"0".repeat(100), &objects)
}

fn player_at(x: i64, y: i64) -> Player {
    let frames = vec![100, 101, 102];
    Player::new(
        Vec2::new(x, y),
        Vec2::new(32, 40),
        (&frames, &frames, &frames, &frames, &frames),
        (&frames, &frames, &frames, &frames, &frames),
    )
}

fn item(kind: ItemType) -> Item {
    Item::new(Vec2::new(0, 0), 1, 16, 16, 1, kind)
}

fn give(p: &mut Player, kind: ItemType) -> bool {
    p.add_tool(&item(kind), &vec![1, 2, 3], &vec![4, 5, 6], &vec![7, 8, 9, 10])
}

#[test]
fn collision_rects() {
    let mut p = player_at(250, 200);
    assert_eq!(p.get_collision_rect(), Rect::new(262, 264, 40, 16));
    assert_eq!(p.get_tool_collision_rect(), Rect::new(314, 225, 32, 48));
    p.left();
    assert_eq!(p.get_tool_collision_rect(), Rect::new(218, 225, 32, 48));
    assert!(p.collision_with_rec(&Rect::new(280, 230, 5, 5)));
    assert!(!p.collision_with_rec(&Rect::new(282, 200, 5, 5)));
}

#[test]
fn free_walk_costs_one_health() {
    let m = open_map();
    let mut p = player_at(200, 200);
    p.right();
    assert!(!p.update(100, &m));
    assert_eq!(p.pos, Vec2::new(230, 200));
    assert_eq!(p.hp, MAX_HP - 1);
}

#[test]
fn diagonal_walk_keeps_speed() {
    let m = open_map();
    let mut p = player_at(200, 200);
    p.right();
    p.down();
    assert!(!p.update(100, &m));
    assert_eq!(p.pos, Vec2::new(221, 221));
}

#[test]
fn standing_still_costs_nothing() {
    let m = open_map();
    let mut p = player_at(200, 200);
    assert!(!p.update(100, &m));
    assert_eq!(p.pos, Vec2::new(200, 200));
    assert_eq!(p.hp, MAX_HP);
}

#[test]
fn wall_stops_the_walk() {
    let m = walled_map();
    let mut p = player_at(250, 200);
    p.right();
    assert!(!p.update(100, &m));
    assert_eq!(p.pos, Vec2::new(250, 200));
    assert_eq!(p.hp, MAX_HP);
}

#[test]
fn wall_lets_the_actor_slide() {
    let m = walled_map();
    let mut p = player_at(250, 200);
    p.right();
    p.down();
    assert!(!p.update(100, &m));
    assert_eq!(p.pos, Vec2::new(250, 221));
    assert_eq!(p.hp, MAX_HP - 1);
    let r = p.get_collision_rect();
    assert!(m.get_collision_tiles_with_layer(1, &r).unwrap().iter().all(|h| !h.0.has_tag(Tags::Barrier)));
}

#[test]
fn tired_actor_walks_slower() {
    let m = open_map();
    let mut p = player_at(200, 200);
    p.hp = 200;
    p.left();
    p.update(100, &m);
    assert_eq!(p.pos, Vec2::new(185, 200));
    assert_eq!(p.movement.speed, 150);
    assert_eq!(p.hp, 199);
}

#[test]
fn no_health_left_ends_the_game() {
    let m = open_map();
    let mut p = player_at(200, 200);
    p.hp = 1;
    p.up();
    assert!(!p.update(10, &m));
    assert_eq!(p.hp, 0);
    assert!(p.update(10, &m));
    assert_eq!(p.hp, 0);
    let mut still = player_at(200, 200);
    still.hp = 0;
    assert!(!still.update(10, &m));
    assert_eq!(still.hp, 0);
}

#[test]
fn level_exit_completes_the_level() {
    let mut m = open_map();
    m.set_tile(1, 5, 4, Tile::Static(0, vec![Tags::Goal]));
    let mut p = player_at(250, 200);
    p.right();
    assert!(p.update(100, &m));
    assert_eq!(p.pos, Vec2::new(250, 200));
    assert_eq!(p.hp, MAX_HP);
}

#[test]
fn first_tool_goes_left_second_right() {
    let mut p = player_at(0, 0);
    assert!(give(&mut p, ItemType::Axe));
    assert!(matches!(p.inventory, Inventory::Left(Tool::Axe(Orientation::Left, _, 1, false))));
    assert!(give(&mut p, ItemType::Shovel));
    assert!(matches!(
        p.inventory,
        Inventory::Both(Tool::Axe(Orientation::Left, _, _, _), Tool::Shovel(Orientation::Right, _, 1, false))
    ));
    assert!(!give(&mut p, ItemType::Pickaxe));
    assert!(matches!(p.inventory, Inventory::Both(Tool::Axe(..), Tool::Shovel(..))));
}

#[test]
fn gear_heals_without_touching_tools() {
    let mut p = player_at(0, 0);
    give(&mut p, ItemType::Axe);
    give(&mut p, ItemType::Pickaxe);
    p.hp = 500;
    assert!(give(&mut p, ItemType::Gear));
    assert_eq!(p.hp, 1000);
    assert!(matches!(
        p.inventory,
        Inventory::Both(Tool::Axe(Orientation::Left, _, 1, false), Tool::Pickaxe(Orientation::Right, _, 1, false))
    ));
}

#[test]
fn switching_swaps_hands() {
    let mut p = player_at(0, 0);
    give(&mut p, ItemType::Axe);
    p.switch_tools();
    assert!(matches!(p.inventory, Inventory::Right(Tool::Axe(Orientation::Right, ..))));
    give(&mut p, ItemType::Pickaxe);
    assert!(matches!(p.inventory, Inventory::Both(Tool::Pickaxe(Orientation::Left, ..), Tool::Axe(Orientation::Right, ..))));
    p.switch_tools();
    assert!(matches!(p.inventory, Inventory::Both(Tool::Axe(Orientation::Left, ..), Tool::Pickaxe(Orientation::Right, ..))));
}

/// Open ground with a palm at cell (5, 4) on the object layer.
fn palm_map() -> TiledMap {
    let mut objects = "0".repeat(100);
    objects.replace_range(45..46, "4");
    map(10, 10, &"0".repeat(100), &objects)
}

#[test]
fn axe_marks_the_palm() {
    let m = palm_map();
    let mut p = player_at(250, 200);
    give(&mut p, ItemType::Axe);
    p.switch_tools();
    let marked = p.use_tool(&m);
    assert_eq!(marked.len(), 1);
    assert!(matches!(marked[0].0, Tile::Static(2, _)));
    assert_eq!(marked[0].1, Vec2::new(320, 256));
    assert!(matches!(p.inventory, Inventory::Right(Tool::Axe(_, _, 0, true))));
}

#[test]
fn pickaxe_leaves_the_palm() {
    let m = palm_map();
    let mut p = player_at(250, 200);
    give(&mut p, ItemType::Pickaxe);
    p.switch_tools();
    let marked = p.use_tool(&m);
    assert!(marked.is_empty());
    assert!(matches!(p.inventory, Inventory::Right(Tool::Pickaxe(_, _, 1, true))));
}

#[test]
fn single_tool_swings_facing_either_way() {
    let m = palm_map();
    let mut p = player_at(250, 200);
    give(&mut p, ItemType::Axe);
    // Facing right with the axe in the left hand: it is still the one used.
    let marked = p.use_tool(&m);
    assert_eq!(marked.len(), 1);
    assert_eq!(marked[0].1, Vec2::new(320, 256));
    assert!(matches!(p.inventory, Inventory::Left(Tool::Axe(_, _, 0, true))));
}

#[test]
fn both_hands_use_the_facing_side() {
    let m = palm_map();
    let mut p = player_at(250, 200);
    give(&mut p, ItemType::Axe);
    give(&mut p, ItemType::Pickaxe);
    // The right hand holds the pickaxe, which does not break palms.
    assert!(p.use_tool(&m).is_empty());
    assert!(matches!(p.inventory, Inventory::Both(Tool::Axe(_, _, 1, false), Tool::Pickaxe(_, _, 1, true))));
}

#[test]
fn two_spent_tools_leave_together() {
    let m = open_map();
    let mut p = player_at(200, 200);
    p.inventory = Inventory::Both(
        Tool::Axe(Orientation::Left, Animation::new(&vec![1]), 0, false),
        Tool::Shovel(Orientation::Right, Animation::new(&vec![2]), 0, false),
    );
    p.update(0, &m);
    assert!(matches!(p.inventory, Inventory::Empty));
}

#[test]
fn one_spent_tool_leaves_alone() {
    let m = open_map();
    let mut p = player_at(200, 200);
    p.inventory = Inventory::Both(
        Tool::Axe(Orientation::Left, Animation::new(&vec![1]), 1, false),
        Tool::Shovel(Orientation::Right, Animation::new(&vec![2]), 0, false),
    );
    p.update(0, &m);
    assert!(matches!(p.inventory, Inventory::Left(Tool::Axe(..))));
}

#[test]
fn short_frames_keep_fractions_of_pixels() {
    let m = open_map();
    let mut p = player_at(200, 200);
    p.right();
    for _ in 0..5 {
        p.update(8, &m);
    }
    // 5 frames of 8 ms at 300 pixels per second: 12 pixels.
    assert_eq!(p.pos, Vec2::new(212, 200));
    assert_eq!(p.carry, Vec2::new(0, 0));
    p.update(8, &m);
    assert_eq!(p.pos, Vec2::new(214, 200));
    assert_eq!(p.carry, Vec2::new(400, 0));
    let mut q = player_at(200, 200);
    q.left();
    q.down();
    for _ in 0..3 {
        q.update(8, &m);
    }
    // 3 diagonal frames: 3 * 1.697 pixels per axis.
    assert_eq!(q.pos, Vec2::new(195, 205));
}

#[test]
fn blocked_axis_forgets_its_fraction() {
    let m = walled_map();
    let mut p = player_at(267, 200);
    p.right();
    p.update(8, &m);
    assert_eq!(p.pos, Vec2::new(267, 200));
    assert_eq!(p.carry, Vec2::new(0, 0));
}

#[test]
fn spent_tool_leaves_after_its_swing() {
    let mut m = palm_map();
    let mut p = player_at(250, 200);
    give(&mut p, ItemType::Axe);
    p.switch_tools();
    let marked = p.use_tool(&m);
    m.handle_hit_tiles(marked);
    assert!(matches!(m.get_tile(1, 5, 4), Some(Tile::AnimatedOnce(_, 0, _))));
    p.update(0, &m);
    assert!(matches!(p.inventory, Inventory::Right(_)));
    p.animation_update();
    p.animation_update();
    assert!(matches!(p.inventory, Inventory::Right(Tool::Axe(_, _, 0, true))));
    p.animation_update();
    assert!(matches!(p.inventory, Inventory::Right(Tool::Axe(_, _, 0, false))));
    p.update(0, &m);
    assert!(matches!(p.inventory, Inventory::Empty));
}

#[test]
fn animation_follows_health_band() {
    let mut p = player_at(0, 0);
    p.hp = 700;
    p.animation_update();
    assert_eq!(p.idle.1.index, 1);
    assert_eq!(p.idle.0.index, 0);
    assert_eq!(p.run.1.current, 100);
    p.animation_update();
    assert_eq!(p.current_texture(), 101);
    p.right();
    assert_eq!(p.current_texture(), 101);
    assert_eq!(p.rotation_modifier(), 1);
    p.left();
    assert_eq!(p.rotation_modifier(), -1);
}

#[test]
fn items_collide_by_their_extent() {
    let it = Item::new(Vec2::new(100, 100), 3, 16, 8, 2, ItemType::Gear);
    assert_eq!(it.width, 32);
    assert_eq!(it.height, 16);
    assert!(it.collision_with_rec(&Rect::new(131, 115, 1, 1)));
    assert!(!it.collision_with_rec(&Rect::new(132, 100, 1, 1)));
}

#[test]
fn pickup_takes_overlapping_items_in_order() {
    let mut p = player_at(0, 0);
    p.hp = 300;
    // The collision rectangle is (12, 64, 40, 16).
    let near = |kind| Item::new(Vec2::new(20, 60), 1, 16, 16, 1, kind);
    let far = Item::new(Vec2::new(500, 500), 1, 16, 16, 1, ItemType::Axe);
    let mut items = vec![near(ItemType::Axe), far, near(ItemType::Gear), near(ItemType::Shovel), near(ItemType::Pickaxe)];
    p.pick_up_items(&mut items, &vec![1, 2, 3], &vec![4, 5, 6], &vec![7, 8, 9, 10]);
    assert_eq!(p.hp, MAX_HP);
    assert!(matches!(p.inventory, Inventory::Both(Tool::Axe(..), Tool::Shovel(..))));
    assert_eq!(items.len(), 2);
    assert_eq!(items[0], far);
    assert_eq!(items[1].item_type, ItemType::Pickaxe);
}

#[test]
fn struck_objects_sound_by_material() {
    assert_eq!(hit_sound(&new_palme()), Some(HitSound::Wood));
    assert_eq!(hit_sound(&new_stone()), Some(HitSound::Stone));
    assert_eq!(hit_sound(&new_pile()), Some(HitSound::Sand));
    assert_eq!(hit_sound(&Tile::Static(1, Vec::new())), None);
    assert_eq!(hit_sound(&Tile::Animated(vec![2], 0, Vec::new())), None);
}
