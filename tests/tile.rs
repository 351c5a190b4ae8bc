use island_maze::geometry::Rect;
use island_maze::tile::{Tags, Tile, falling_tile, new_pile, new_stone, tile_for_code};

#[test]
fn advance_loops_and_holds() {
    let mut looping = Tile::Animated(vec![5, 6], 1, vec![Tags::Barrier]);
    looping.advance();
    assert!(matches!(looping, Tile::Animated(_, 0, _)));
    assert_eq!(looping.texture_id(), 5);

    let mut once = Tile::AnimatedOnce(vec![1, 2, 3], 0, vec![Tags::Barrier, Tags::Destroyable]);
    once.advance();
    assert!(once.has_tag(Tags::Barrier));
    once.advance();
    assert!(!once.has_tag(Tags::Barrier));
    assert!(once.has_tag(Tags::Destroyable));
    assert_eq!(once.texture_id(), 3);
    once.advance();
    assert_eq!(once.texture_id(), 3);

    let mut fixed = new_stone();
    fixed.advance();
    assert_eq!(fixed.texture_id(), 7);
}

#[test]
fn codes_and_falling_sequences() {
    assert!(tile_for_code('7').is_none());
    assert!(tile_for_code(' ').is_none());
    assert_eq!(tile_for_code('6').unwrap().texture_id(), 18);
    assert!(falling_tile(1).is_none());
    assert_eq!(falling_tile(new_pile().texture_id()).unwrap().texture_id(), 18);
}

#[test]
fn clone_keeps_tile() {
    let t = Tile::AnimatedOnce(vec![1, 2], 1, vec![Tags::Goal]);
    let c = t.clone();
    assert!(matches!(c, Tile::AnimatedOnce(ref f, 1, ref g) if *f == vec![1, 2] && *g == vec![Tags::Goal]));
}

#[test]
fn rect_overlap_is_strict() {
    let a = Rect::new(0, 0, 10, 10);
    assert!(a.overlaps(&Rect::new(9, 9, 5, 5)));
    assert!(!a.overlaps(&Rect::new(10, 0, 5, 5)));
    assert!(!a.overlaps(&Rect::new(0, -5, 5, 5)));
}
