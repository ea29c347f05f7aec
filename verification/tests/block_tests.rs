use collision_simulation::block::Block;
use collision_simulation::collision_result::CollisionResult;
use collision_simulation::rect::Rect;
use collision_simulation::segment::Contact;
use collision_simulation::traits::Position;
use collision_simulation::vec2::Vec2;

fn touch() -> Option<Contact> {
    Some(Contact { x_num: 0, y_num: 0, den: 1 })
}

#[test]
fn test_update_without_collision_keeps_implicit_speed() {
    let mut b = Block::new(Rect::new(10, 10, 5, 5), Vec2::zero());
    b.old_rec = Rect::new(8, 9, 5, 5);
    b.update(16, &None);
    assert_eq!(b.rec, Rect::new(12, 11, 5, 5));
    assert_eq!(b.old_rec, Rect::new(10, 10, 5, 5));
    assert_eq!(b.acc, Vec2::zero());
}

#[test]
fn test_update_consumes_the_acceleration_impulse() {
    // acc * dt^2 with dt = 0.5 s: 1000 * 0.25 = 250 units
    let mut b = Block::new(Rect::new(0, 0, 5, 5), Vec2::new(1000, -1000));
    b.update(500, &None);
    assert_eq!(b.rec, Rect::new(250, -250, 5, 5));
    assert_eq!(b.acc, Vec2::zero());
    // a second step gets no further impulse
    b.update(500, &None);
    assert_eq!(b.rec, Rect::new(500, -500, 5, 5));
}

#[test]
fn test_top_contact_redirects_upward_motion_downward() {
    let mut b = Block::new(Rect::new(10, 10, 5, 5), Vec2::zero());
    b.old_rec = Rect::new(10, 13, 5, 5);  // implicit speed (0, -3): moving up
    let cr = CollisionResult::new(touch(), None, None, None);
    b.update(16, &Some(cr));
    // the vertical component is forced downward, magnitude kept
    assert_eq!(b.rec, Rect::new(10, 13, 5, 5));
}

// A body at rest touching on its top edge alone: the policy forces the
// direction of the speed, not its magnitude, so a zero speed stays zero
// and only the acceleration term displaces the body (downward here).
#[test]
fn test_top_contact_with_zero_speed_moves_by_acceleration_only() {
    let mut b = Block::new(Rect::new(10, 10, 5, 5), Vec2::new(0, 7));
    let cr = CollisionResult::new(touch(), None, None, None);
    b.update(1000, &Some(cr));
    assert_eq!(b.rec, Rect::new(10, 17, 5, 5));
}

#[test]
fn test_adjacent_two_edge_contact_forces_both_components() {
    let mut b = Block::new(Rect::new(0, 0, 5, 5), Vec2::zero());
    b.old_rec = Rect::new(-2, 3, 5, 5);  // speed (2, -3)
    // top+right: force down and left
    let cr = CollisionResult::new(touch(), touch(), None, None);
    b.update(16, &Some(cr));
    assert_eq!(b.rec, Rect::new(-2, 3, 5, 5));
}

#[test]
fn test_opposite_pair_mirrors_the_matching_component() {
    // top+bottom mirrors the vertical component
    let mut b = Block::new(Rect::new(0, 0, 5, 5), Vec2::zero());
    b.old_rec = Rect::new(-2, -3, 5, 5);  // speed (2, 3)
    let cr = CollisionResult::new(touch(), None, touch(), None);
    b.update(16, &Some(cr));
    assert_eq!(b.rec, Rect::new(2, -3, 5, 5));

    // right+left mirrors the horizontal component
    let mut c = Block::new(Rect::new(0, 0, 5, 5), Vec2::zero());
    c.old_rec = Rect::new(-2, -3, 5, 5);  // speed (2, 3)
    let cr2 = CollisionResult::new(None, touch(), None, touch());
    c.update(16, &Some(cr2));
    assert_eq!(c.rec, Rect::new(-2, 3, 5, 5));
}

// Three simultaneous edges are degenerate geometry: the implicit speed
// passes through unchanged, and nothing zeroes it or panics.
#[test]
fn test_three_edge_contact_keeps_speed_unchanged() {
    let mut b = Block::new(Rect::new(10, 10, 5, 5), Vec2::zero());
    b.old_rec = Rect::new(8, 13, 5, 5);  // speed (2, -3)
    let cr = CollisionResult::new(touch(), touch(), touch(), None);
    b.update(16, &Some(cr));
    assert_eq!(b.rec, Rect::new(12, 7, 5, 5));
    assert_eq!(b.old_rec, Rect::new(10, 10, 5, 5));
}

#[test]
fn test_position_reads_and_moves_the_rectangle() {
    let mut r = Rect::new(10, 20, 5, 5);
    assert_eq!(r.position(), Vec2 { x: 10, y: 20 });
    r.set_position(Vec2 { x: 7, y: 8 });
    assert_eq!(r, Rect::new(7, 8, 5, 5));

    let mut b = Block::new(Rect::new(1, 2, 3, 4), Vec2::zero());
    assert_eq!(b.position(), Vec2 { x: 1, y: 2 });
    b.set_position(Vec2 { x: -1, y: -2 });
    assert_eq!(b.rec, Rect::new(-1, -2, 3, 4));
    assert_eq!(b.old_rec, Rect::new(1, 2, 3, 4));
}

#[test]
fn test_four_edge_contact_keeps_speed_unchanged() {
    let mut b = Block::new(Rect::new(10, 10, 5, 5), Vec2::zero());
    b.old_rec = Rect::new(8, 13, 5, 5);
    let cr = CollisionResult::new(touch(), touch(), touch(), touch());
    b.update(16, &Some(cr));
    assert_eq!(b.rec, Rect::new(12, 7, 5, 5));
}
