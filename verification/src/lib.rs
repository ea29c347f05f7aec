//! A discrete, step-based collision simulation for axis-aligned rectangular
//! bodies in a bounded arena.
//!
//! Coordinates are integer world units: every position, size and speed is an
//! `i64`.  Segment intersection is computed exactly with the standard
//! cross-product parametric formula, so the narrow phase has no numerical
//! noise; contact points are exact rationals.

pub mod block;
pub mod collision_result;
pub mod grid;
pub mod rect;
pub mod segment;
pub mod sim;
pub mod traits;
pub mod vec2;
pub mod wall;

use vstd::prelude::*;
use crate::collision_result::CollisionResult;
use crate::segment::{seg_in_range, segments_intersect, spec_contact, Contact, Segment};
use crate::traits::Sides;

verus! {

/// Magnitude bound on the coordinates that the exact segment-intersection
/// arithmetic accepts; intermediate products then fit comfortably in `i128`.
pub const COORD_LIMIT: i64 = 0x8000_0000;

/// Magnitude bound on entity positions and sizes; every boundary segment
/// an entity within this bound derives stays within `COORD_LIMIT`.
pub const ENTITY_LIMIT: i64 = 0x4000_0000;

/// What one subject edge reports against a candidate: the contact with
/// the first candidate edge, in the fixed priority order top, right,
/// bottom, left, that crosses it; nothing if none does.
pub open spec fn spec_edge_hit(
    e: Segment,
    o_top: Segment,
    o_right: Segment,
    o_bottom: Segment,
    o_left: Segment,
) -> Option<Contact> {
    if segments_intersect(e, o_top) {
        Some(spec_contact(e, o_top))
    } else if segments_intersect(e, o_right) {
        Some(spec_contact(e, o_right))
    } else if segments_intersect(e, o_bottom) {
        Some(spec_contact(e, o_bottom))
    } else if segments_intersect(e, o_left) {
        Some(spec_contact(e, o_left))
    } else {
        None
    }
}

/// The narrow-phase result of one subject against one candidate: each of
/// the subject's four edges, in slot order, reports its first hit among
/// the candidate's edges.
pub open spec fn spec_check_collision(
    s_top: Segment,
    s_right: Segment,
    s_bottom: Segment,
    s_left: Segment,
    o_top: Segment,
    o_right: Segment,
    o_bottom: Segment,
    o_left: Segment,
) -> CollisionResult {
    CollisionResult {
        top: spec_edge_hit(s_top, o_top, o_right, o_bottom, o_left),
        right: spec_edge_hit(s_right, o_top, o_right, o_bottom, o_left),
        bottom: spec_edge_hit(s_bottom, o_top, o_right, o_bottom, o_left),
        left: spec_edge_hit(s_left, o_top, o_right, o_bottom, o_left),
    }
}

fn edge_hit(
    e: &Segment,
    o_top: &Segment,
    o_right: &Segment,
    o_bottom: &Segment,
    o_left: &Segment,
) -> (h: Option<Contact>)
    requires
        seg_in_range(*e),
        seg_in_range(*o_top),
        seg_in_range(*o_right),
        seg_in_range(*o_bottom),
        seg_in_range(*o_left),
    ensures
        h == spec_edge_hit(*e, *o_top, *o_right, *o_bottom, *o_left),
{
    if let Some(c) = e.check_collision_segment(o_top) {
        Some(c)
    } else if let Some(c) = e.check_collision_segment(o_right) {
        Some(c)
    } else if let Some(c) = e.check_collision_segment(o_bottom) {
        Some(c)
    } else if let Some(c) = e.check_collision_segment(o_left) {
        Some(c)
    } else {
        None
    }
}

/// Tests every edge of `subject` against every edge of `other`: per
/// subject edge, candidate edges are tried in the priority order top,
/// right, bottom, left, and the first crossing found fills that slot.
pub fn check_collision<A: Sides, B: Sides>(subject: &A, other: &B) -> (r: CollisionResult)
    requires
        subject.sides_ok(),
        other.sides_ok(),
        seg_in_range(subject.spec_top()),
        seg_in_range(subject.spec_right()),
        seg_in_range(subject.spec_bottom()),
        seg_in_range(subject.spec_left()),
        seg_in_range(other.spec_top()),
        seg_in_range(other.spec_right()),
        seg_in_range(other.spec_bottom()),
        seg_in_range(other.spec_left()),
    ensures
        r == spec_check_collision(
            subject.spec_top(),
            subject.spec_right(),
            subject.spec_bottom(),
            subject.spec_left(),
            other.spec_top(),
            other.spec_right(),
            other.spec_bottom(),
            other.spec_left(),
        ),
{
    let s_top = subject.top();
    let s_right = subject.right();
    let s_bottom = subject.bottom();
    let s_left = subject.left();
    let o_top = other.top();
    let o_right = other.right();
    let o_bottom = other.bottom();
    let o_left = other.left();
    CollisionResult {
        top: edge_hit(&s_top, &o_top, &o_right, &o_bottom, &o_left),
        right: edge_hit(&s_right, &o_top, &o_right, &o_bottom, &o_left),
        bottom: edge_hit(&s_bottom, &o_top, &o_right, &o_bottom, &o_left),
        left: edge_hit(&s_left, &o_top, &o_right, &o_bottom, &o_left),
    }
}

} // verus!
