use collision_simulation::collision_result::CollisionResult;
use collision_simulation::segment::Contact;
use collision_simulation::traits::Redirect;
use collision_simulation::vec2::Vec2;

fn contact(x: i128, y: i128) -> Contact {
    Contact { x_num: x, y_num: y, den: 1 }
}

#[test]
fn test_into_option_maps_empty_to_none() {
    let empty = CollisionResult::new(None, None, None, None);
    assert!(empty.into_option().is_none());

    let hit = CollisionResult::new(None, Some(contact(1, 2)), None, None);
    assert_eq!(hit.into_option(), Some(hit));
}

// Merging a record with itself changes nothing; merging with the
// all-empty record, on either side, returns the other record unchanged.
#[test]
fn test_combine_idempotent_and_empty_identity() {
    let r = CollisionResult::new(Some(contact(1, 1)), None, Some(contact(2, 2)), None);
    let empty = CollisionResult::empty();

    assert_eq!(r.combine(r), r);
    assert_eq!(r.combine(empty), r);
    assert_eq!(empty.combine(r), r);
    assert_eq!(empty.combine(empty), empty);
}

#[test]
fn test_combine_first_present_wins() {
    let a = CollisionResult::new(Some(contact(1, 1)), None, None, Some(contact(4, 4)));
    let b = CollisionResult::new(Some(contact(9, 9)), Some(contact(2, 2)), None, None);
    let merged = a.combine(b);
    assert_eq!(merged.top, Some(contact(1, 1)));
    assert_eq!(merged.right, Some(contact(2, 2)));
    assert_eq!(merged.bottom, None);
    assert_eq!(merged.left, Some(contact(4, 4)));
}

#[test]
fn test_redirect_forces_direction_and_keeps_magnitude() {
    let v = Vec2 { x: 3, y: 5 };
    assert_eq!(v.move_up(), Vec2 { x: 3, y: -5 });
    assert_eq!(v.move_down(), Vec2 { x: 3, y: 5 });
    assert_eq!(v.move_left(), Vec2 { x: -3, y: 5 });
    assert_eq!(v.move_right(), Vec2 { x: 3, y: 5 });

    let w = Vec2 { x: -3, y: -5 };
    assert_eq!(w.move_up(), Vec2 { x: -3, y: -5 });
    assert_eq!(w.move_down(), Vec2 { x: -3, y: 5 });
    assert_eq!(w.move_left(), Vec2 { x: -3, y: -5 });
    assert_eq!(w.move_right(), Vec2 { x: 3, y: -5 });

    let zero = Vec2::zero();
    assert_eq!(zero.move_down(), zero);
}
