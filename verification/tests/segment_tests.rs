use collision_simulation::segment::{isqrt, Contact, Segment};
use collision_simulation::vec2::Vec2;

fn seg(x0: i64, y0: i64, x1: i64, y1: i64) -> Segment {
    Segment { start: Vec2 { x: x0, y: y0 }, end: Vec2 { x: x1, y: y1 } }
}

#[test]
fn test_crossing_segments_report_the_exact_point() {
    let a = seg(0, 0, 10, 0);
    let b = seg(5, -5, 5, 5);
    let hit = a.check_collision_segment(&b);
    // crossing at (5, 0), denominator 100: (500/100, 0/100)
    assert_eq!(hit, Some(Contact { x_num: 500, y_num: 0, den: 100 }));
}

#[test]
fn test_parallel_segments_do_not_intersect() {
    let a = seg(0, 0, 10, 0);
    let b = seg(0, 1, 10, 1);
    assert_eq!(a.check_collision_segment(&b), None);
    assert_eq!(b.check_collision_segment(&a), None);
}

#[test]
fn test_collinear_segments_do_not_intersect() {
    let a = seg(0, 0, 10, 0);
    let b = seg(5, 0, 15, 0);
    assert_eq!(a.check_collision_segment(&b), None);
}

#[test]
fn test_intersection_outside_the_segments_is_rejected() {
    let a = seg(0, 0, 10, 0);
    let b = seg(20, -5, 20, 5);
    assert_eq!(a.check_collision_segment(&b), None);
}

#[test]
fn test_touching_endpoints_count_as_intersection() {
    let a = seg(0, 0, 10, 0);
    let b = seg(10, -5, 10, 5);
    let hit = a.check_collision_segment(&b);
    assert!(hit.is_some());
    let c = hit.unwrap();
    // the point is (10, 0)
    assert_eq!(c.x_num, 10 * c.den);
    assert_eq!(c.y_num, 0);
}

// Swapping the arguments changes neither the outcome nor the reported
// contact point.
#[test]
fn test_intersection_is_symmetric() {
    let a = seg(0, 0, 10, 0);
    let b = seg(5, -5, 5, 5);
    assert_eq!(a.check_collision_segment(&b), b.check_collision_segment(&a));

    let c = seg(-3, -3, 7, 9);
    let d = seg(-3, 5, 8, -2);
    assert_eq!(c.check_collision_segment(&d), d.check_collision_segment(&c));

    let far = seg(100, 100, 110, 100);
    assert_eq!(a.check_collision_segment(&far), None);
    assert_eq!(far.check_collision_segment(&a), None);
}

#[test]
fn test_normal_of_horizontal_segment_points_up() {
    let s = seg(0, 0, 10, 0);
    let n = s.normal_unit();
    assert_eq!(n.start, Vec2 { x: 5, y: 0 });
    assert_eq!(n.end, Vec2 { x: 5, y: -1 });
}

#[test]
fn test_normal_of_vertical_segment_points_right() {
    let s = seg(0, 0, 0, 10);
    let n = s.normal_unit();
    assert_eq!(n.start, Vec2 { x: 0, y: 5 });
    assert_eq!(n.end, Vec2 { x: 1, y: 5 });
}

#[test]
fn test_isqrt_exact_values() {
    assert_eq!(isqrt(0), 0);
    assert_eq!(isqrt(1), 1);
    assert_eq!(isqrt(3), 1);
    assert_eq!(isqrt(4), 2);
    assert_eq!(isqrt(2500), 50);
    assert_eq!(isqrt(2599), 50);
    assert_eq!(isqrt(u64::MAX), 0xFFFF_FFFF);
}
