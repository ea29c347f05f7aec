use collision_simulation::segment::Segment;
use collision_simulation::traits::Sides;
use collision_simulation::vec2::Vec2;
use collision_simulation::wall::Wall;

fn v(x: i64, y: i64) -> Vec2 {
    Vec2 { x, y }
}

#[test]
fn test_wall_rejects_zero_length_centerline() {
    assert_eq!(Wall::new(v(5, 5), v(5, 5)), None);
}

#[test]
fn test_wall_rejects_out_of_range_coordinates() {
    assert_eq!(Wall::new(v(0, 0), v(0x8000_0000, 0)), None);
}

#[test]
fn test_wall_construction() {
    let w = Wall::new(v(0, 0), v(960, 0)).unwrap();
    assert_eq!(w.thick, 5);
    assert_eq!(w.position, Segment { start: v(0, 0), end: v(960, 0) });
}

#[test]
fn test_horizontal_wall_collision_box() {
    // thickness 5 offsets the centerline by 5/2 = 2 (floored) on each side
    let w = Wall::new(v(0, 2), v(959, 2)).unwrap();
    let bx = w.get_collision_box();
    assert_eq!(bx[0], Segment { start: v(0, 0), end: v(959, 0) });
    assert_eq!(bx[1], Segment { start: v(959, 0), end: v(959, 4) });
    assert_eq!(bx[2], Segment { start: v(959, 4), end: v(0, 4) });
    assert_eq!(bx[3], Segment { start: v(0, 4), end: v(0, 0) });

    assert_eq!(w.top(), bx[0]);
    assert_eq!(w.right(), bx[1]);
    assert_eq!(w.bottom(), bx[2]);
    assert_eq!(w.left(), bx[3]);
}

#[test]
fn test_diagonal_wall_collision_box() {
    // centerline of length 50; the offset radius is (-2, 1), each
    // component floored from 5/2 of (40, 30)/50
    let w = Wall::new(v(0, 0), v(30, 40)).unwrap();
    let bx = w.get_collision_box();
    assert_eq!(bx[0], Segment { start: v(2, -1), end: v(32, 39) });
    assert_eq!(bx[1], Segment { start: v(32, 39), end: v(28, 41) });
    assert_eq!(bx[2], Segment { start: v(28, 41), end: v(-2, 1) });
    assert_eq!(bx[3], Segment { start: v(-2, 1), end: v(2, -1) });
}

#[test]
fn test_wall_aabb_covers_the_box() {
    let w = Wall::new(v(0, 2), v(959, 2)).unwrap();
    let bb = w.aabb();
    assert_eq!(bb.start, v(0, 0));
    assert_eq!(bb.end, v(959, 4));
}
