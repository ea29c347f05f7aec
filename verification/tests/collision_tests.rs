use collision_simulation::rect::Rect;
use collision_simulation::traits::Collision;

#[test]
fn test_check_collision_with_no_collision() {
    let rec1 = Rect::new(10, 10, 5, 5);
    let rec2 = Rect::new(20, 20, 5, 5);

    let collision = rec1.check_collision(&rec2);

    assert!(collision.into_option().is_none());
}

#[test]
fn test_check_collision_with_top_right_corner() {
    let rec1 = Rect::new(50, 100, 100, 100);
    let rec2 = Rect::new(100, 50, 100, 100);

    let collision = rec1.check_collision(&rec2);

    assert!(collision.into_option().is_some());
    assert!(collision.top.is_some());
    assert!(collision.right.is_some());
    assert!(collision.bottom.is_none());
    assert!(collision.left.is_none());
}

#[test]
fn test_check_collision_with_bottom_left_corner() {
    let rec1 = Rect::new(50, 100, 100, 100);
    let rec2 = Rect::new(100, 50, 100, 100);

    let collision = rec2.check_collision(&rec1);

    assert!(collision.into_option().is_some());
    assert!(collision.top.is_none());
    assert!(collision.right.is_none());
    assert!(collision.bottom.is_some());
    assert!(collision.left.is_some());
}
