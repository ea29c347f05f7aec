use collision_simulation::block::Block;
use collision_simulation::grid::{Col, Grid, Row};
use collision_simulation::rect::Rect;
use collision_simulation::sim::{build_grid, insert_items};
use collision_simulation::traits::{GridItem, Sides};
use collision_simulation::vec2::Vec2;
use collision_simulation::wall::Wall;

fn v(x: i64, y: i64) -> Vec2 {
    Vec2 { x, y }
}

#[test]
fn test_build_grid_accepts_an_evenly_divided_arena() {
    let grid = build_grid(15, 1440, 810).unwrap();
    assert_eq!(grid.spacing, 30);
    assert_eq!(grid.rows, 27);
    assert_eq!(grid.cols, 48);
    assert_eq!(grid.get(&Row(0), &Col(0)), Some(&vec![]));
    assert_eq!(grid.get(&Row(26), &Col(47)), Some(&vec![]));
    assert_eq!(grid.get(&Row(27), &Col(0)), None);
}

#[test]
fn test_build_grid_rejects_an_unaligned_width() {
    assert!(build_grid(15, 1000, 810).is_none());
}

#[test]
fn test_build_grid_rejects_an_unaligned_height() {
    assert!(build_grid(15, 1440, 800).is_none());
}

#[test]
fn test_build_grid_rejects_degenerate_dimensions() {
    assert!(build_grid(0, 1440, 810).is_none());
    assert!(build_grid(-15, 1440, 810).is_none());
    assert!(build_grid(15, 0, 810).is_none());
    assert!(build_grid(15, 1440, -810).is_none());
}

#[test]
fn test_insert_items_registers_each_item_under_its_handle() {
    let mut grid = Grid::new(4, 4, 30);
    let wall = Wall::new(v(0, 2), v(100, 2)).unwrap();
    let block = Block::new(Rect::new(35, 35, 10, 10), Vec2::zero());
    let items = vec![GridItem::Wall(wall), GridItem::Block(block)];

    insert_items(&mut grid, &items);

    // the wall's box spans rows 0..=0, columns 0..=3
    assert_eq!(grid.get(&Row(0), &Col(0)), Some(&vec![0]));
    assert_eq!(grid.get(&Row(0), &Col(3)), Some(&vec![0]));
    // the block's box spans exactly cell (1, 1)
    assert_eq!(grid.get(&Row(1), &Col(1)), Some(&vec![1]));
    assert_eq!(grid.get(&Row(2), &Col(2)), Some(&vec![]));
}

#[test]
fn test_calculate_collisions_finds_the_nearest_wall() {
    let mut grid = build_grid(15, 960, 540).unwrap();
    let wall = Wall::new(v(0, 2), v(959, 2)).unwrap();
    let subject = Block::new(Rect::new(100, 1, 10, 10), Vec2::zero());
    let items = vec![GridItem::Wall(wall), GridItem::Block(subject)];
    insert_items(&mut grid, &items);

    let result = subject.calculate_collisions(&grid, &items).unwrap();
    // the body overlaps the wall's thin box: its left and right edges
    // cross the box's lower edge
    assert!(result.left.is_some());
    assert!(result.right.is_some());
    assert!(result.top.is_none());
    assert!(result.bottom.is_none());
}

#[test]
fn test_calculate_collisions_excludes_the_body_itself() {
    let mut grid = build_grid(15, 960, 540).unwrap();
    let subject = Block::new(Rect::new(100, 100, 10, 10), Vec2::zero());
    let items = vec![GridItem::Block(subject)];
    insert_items(&mut grid, &items);

    assert!(subject.calculate_collisions(&grid, &items).is_none());
}

#[test]
fn test_calculate_collisions_reports_nothing_when_clear() {
    let mut grid = build_grid(15, 960, 540).unwrap();
    let wall = Wall::new(v(0, 2), v(959, 2)).unwrap();
    let mut far = Block::new(Rect::new(300, 300, 10, 10), Vec2::zero());
    far.id = 1;
    let items = vec![GridItem::Wall(wall), GridItem::Block(far)];
    insert_items(&mut grid, &items);

    assert!(far.calculate_collisions(&grid, &items).is_none());
}

#[test]
fn test_rect_sides_and_grid_ranges() {
    let r = Rect::new(10, 20, 30, 40);
    assert_eq!(
        r.top(),
        collision_simulation::segment::Segment { start: v(10, 20), end: v(40, 20) }
    );
    assert_eq!(
        r.right(),
        collision_simulation::segment::Segment { start: v(40, 20), end: v(40, 60) }
    );
    assert_eq!(
        r.bottom(),
        collision_simulation::segment::Segment { start: v(10, 60), end: v(40, 60) }
    );
    assert_eq!(
        r.left(),
        collision_simulation::segment::Segment { start: v(10, 20), end: v(10, 60) }
    );

    let bb = r.aabb();
    assert_eq!(bb.start, v(10, 20));
    assert_eq!(bb.end, v(40, 60));

    let ((r0, r1), (c0, c1)) = r.calculate_grid_ranges(30);
    assert_eq!((r0, r1), (Row(0), Row(2)));
    assert_eq!((c0, c1), (Col(0), Col(1)));

    // negative coordinates clamp to cell zero
    let off = Rect::new(-50, -50, 10, 10);
    let ((r0n, r1n), (c0n, c1n)) = off.calculate_grid_ranges(30);
    assert_eq!((r0n, r1n), (Row(0), Row(0)));
    assert_eq!((c0n, c1n), (Col(0), Col(0)));
}
