//! Static boundary walls.
//!
//! A wall is a centerline segment plus a thickness; its collision volume
//! is the thin rectangle obtained by offsetting the centerline on both
//! sides by a perpendicular radius of half the thickness.  The offset
//! direction is the rotated direction vector `(-dy, dx)` scaled by
//! `thick / (2 * length)`; the length is the floored integer square root
//! of `dx^2 + dy^2`, and the scaled components are floored as well, so
//! the box is exact on axis-aligned walls and conservatively rounded on
//! diagonal ones.

use vstd::prelude::*;
use vstd::arithmetic::div_mod::{
    lemma_div_is_ordered, lemma_div_multiples_vanish_quotient, lemma_div_pos_is_pos,
};
use vstd::arithmetic::mul::{lemma_mul_inequality, lemma_mul_is_commutative, lemma_mul_nonnegative};
use crate::segment::{lemma_sqrt_floor_bounds, seg_in_range, sqrt_floor, isqrt, Segment};
use crate::traits::{Position, Sides};
use crate::vec2::{iabs, Vec2};
use crate::ENTITY_LIMIT;

verus! {

/// A static wall: its visual centerline plus the thickness of its
/// collision volume.  Immutable after creation; a zero-length centerline
/// is rejected at construction.
#[derive(Clone, Copy, PartialEq, Eq, Structural, Debug)]
pub struct Wall {
    pub position: Segment,
    pub thick: i64,
}

/// The validity a wall's constructor establishes: centerline coordinates
/// within the entity bound, positive bounded thickness, and a centerline
/// of nonzero length.
pub open spec fn wall_in_range(w: Wall) -> bool {
    &&& -ENTITY_LIMIT <= w.position.start.x <= ENTITY_LIMIT
    &&& -ENTITY_LIMIT <= w.position.start.y <= ENTITY_LIMIT
    &&& -ENTITY_LIMIT <= w.position.end.x <= ENTITY_LIMIT
    &&& -ENTITY_LIMIT <= w.position.end.y <= ENTITY_LIMIT
    &&& 1 <= w.thick <= ENTITY_LIMIT
    &&& w.position.start != w.position.end
}

/// The floored length of the centerline.
pub open spec fn wall_len(w: Wall) -> int {
    let dx = w.position.end.x - w.position.start.x;
    let dy = w.position.end.y - w.position.start.y;
    sqrt_floor((dx * dx + dy * dy) as nat) as int
}

/// x component of the perpendicular offset radius: magnitude
/// `thick * |dy| / (2 * length)` (floored), sign opposite to `dy`.
pub open spec fn wall_radius_x(w: Wall) -> int {
    let dy = w.position.end.y - w.position.start.y;
    let mag = (w.thick * iabs(dy)) / (2 * wall_len(w));
    if dy > 0 {
        -mag
    } else {
        mag
    }
}

/// y component of the perpendicular offset radius: magnitude
/// `thick * |dx| / (2 * length)` (floored), sign that of `dx`.
pub open spec fn wall_radius_y(w: Wall) -> int {
    let dx = w.position.end.x - w.position.start.x;
    let mag = (w.thick * iabs(dx)) / (2 * wall_len(w));
    if dx < 0 {
        -mag
    } else {
        mag
    }
}

/// First edge of the collision box: alongside the centerline, offset
/// against the radius.
pub open spec fn wall_box_top(w: Wall) -> Segment {
    Segment {
        start: Vec2 {
            x: (w.position.start.x - wall_radius_x(w)) as i64,
            y: (w.position.start.y - wall_radius_y(w)) as i64,
        },
        end: Vec2 {
            x: (w.position.end.x - wall_radius_x(w)) as i64,
            y: (w.position.end.y - wall_radius_y(w)) as i64,
        },
    }
}

/// Second edge: across the end of the centerline.
pub open spec fn wall_box_right(w: Wall) -> Segment {
    Segment {
        start: Vec2 {
            x: (w.position.end.x - wall_radius_x(w)) as i64,
            y: (w.position.end.y - wall_radius_y(w)) as i64,
        },
        end: Vec2 {
            x: (w.position.end.x + wall_radius_x(w)) as i64,
            y: (w.position.end.y + wall_radius_y(w)) as i64,
        },
    }
}

/// Third edge: alongside the centerline, offset with the radius.
pub open spec fn wall_box_bottom(w: Wall) -> Segment {
    Segment {
        start: Vec2 {
            x: (w.position.end.x + wall_radius_x(w)) as i64,
            y: (w.position.end.y + wall_radius_y(w)) as i64,
        },
        end: Vec2 {
            x: (w.position.start.x + wall_radius_x(w)) as i64,
            y: (w.position.start.y + wall_radius_y(w)) as i64,
        },
    }
}

/// Fourth edge: across the start of the centerline.
pub open spec fn wall_box_left(w: Wall) -> Segment {
    Segment {
        start: Vec2 {
            x: (w.position.start.x + wall_radius_x(w)) as i64,
            y: (w.position.start.y + wall_radius_y(w)) as i64,
        },
        end: Vec2 {
            x: (w.position.start.x - wall_radius_x(w)) as i64,
            y: (w.position.start.y - wall_radius_y(w)) as i64,
        },
    }
}

/// A valid wall's centerline has positive floored length.
pub proof fn lemma_wall_len_pos(w: Wall)
    requires
        wall_in_range(w),
    ensures
        1 <= wall_len(w) <= 0x1_0000_0000,
{
    let dx = w.position.end.x - w.position.start.x;
    let dy = w.position.end.y - w.position.start.y;
    let n = (dx * dx + dy * dy) as nat;
    assert(dx * dx >= 0) by (nonlinear_arith);
    assert(dy * dy >= 0) by (nonlinear_arith);
    assert(dx != 0 || dy != 0);
    assert(dx != 0 ==> dx * dx >= 1) by (nonlinear_arith);
    assert(dy != 0 ==> dy * dy >= 1) by (nonlinear_arith);
    assert(n >= 1);
    lemma_sqrt_floor_bounds(n);
    let s = sqrt_floor(n);
    if s == 0 {
        assert((s + 1) * (s + 1) == 1) by (nonlinear_arith)
            requires
                s == 0nat,
        ;
        assert(n < 1);
    }
    assert(dx * dx <= 0x4000_0000_0000_0000) by (nonlinear_arith)
        requires
            -0x8000_0000 <= dx <= 0x8000_0000,
    ;
    assert(dy * dy <= 0x4000_0000_0000_0000) by (nonlinear_arith)
        requires
            -0x8000_0000 <= dy <= 0x8000_0000,
    ;
    if s > 0x1_0000_0000 {
        assert(s * s > 0x1_0000_0000_0000_0000) by (nonlinear_arith)
            requires
                s > 0x1_0000_0000,
        ;
    }
    assert(1 <= s <= 0x1_0000_0000);
    assert(wall_len(w) == s);
}

/// `|v| <= sqrt_floor(v * v + u)` for any nonnegative padding `u`.
proof fn lemma_abs_le_sqrt(v: int, u: int)
    requires
        0 <= u,
    ensures
        iabs(v) <= sqrt_floor((v * v + u) as nat),
{
    assert(v * v >= 0) by (nonlinear_arith);
    let n = (v * v + u) as nat;
    lemma_sqrt_floor_bounds(n);
    let s = sqrt_floor(n);
    if iabs(v) > s {
        assert(v * v >= (s + 1) * (s + 1)) by (nonlinear_arith)
            requires
                iabs(v) >= s + 1,
                iabs(v) == if v < 0 {
                    -v
                } else {
                    v
                },
        ;
    }
}

/// The perpendicular radius components are bounded by half the
/// thickness, so a valid wall's collision box stays within the range the
/// exact intersection arithmetic accepts.
pub proof fn lemma_wall_radius_bounds(w: Wall)
    requires
        wall_in_range(w),
    ensures
        -w.thick <= wall_radius_x(w) <= w.thick,
        -w.thick <= wall_radius_y(w) <= w.thick,
{
    let dx = w.position.end.x - w.position.start.x;
    let dy = w.position.end.y - w.position.start.y;
    let l = wall_len(w);
    lemma_wall_len_pos(w);
    assert(dx * dx >= 0) by (nonlinear_arith);
    assert(dy * dy >= 0) by (nonlinear_arith);
    lemma_abs_le_sqrt(dy, dx * dx);
    lemma_abs_le_sqrt(dx, dy * dy);
    assert(iabs(dy) <= l);
    assert(iabs(dx) <= l);

    let mag_x = (w.thick * iabs(dy)) / (2 * l);
    let mag_y = (w.thick * iabs(dx)) / (2 * l);
    lemma_mul_inequality(iabs(dy), l, w.thick as int);
    lemma_mul_is_commutative(iabs(dy), w.thick as int);
    lemma_mul_is_commutative(l, w.thick as int);
    assert(w.thick * iabs(dy) <= w.thick * l);
    lemma_mul_inequality(iabs(dx), l, w.thick as int);
    lemma_mul_is_commutative(iabs(dx), w.thick as int);
    assert(w.thick * iabs(dx) <= w.thick * l);
    lemma_mul_nonnegative(w.thick as int, iabs(dy));
    lemma_mul_nonnegative(w.thick as int, iabs(dx));
    lemma_div_is_ordered(w.thick * iabs(dy), w.thick * l, 2 * l);
    lemma_div_is_ordered(w.thick * iabs(dx), w.thick * l, 2 * l);
    lemma_div_multiples_vanish_quotient(l, w.thick as int, 2);
    assert(w.thick / 2 == (l * w.thick) / (l * 2));
    lemma_mul_is_commutative(l, w.thick as int);
    lemma_mul_is_commutative(l, 2);
    assert((w.thick * l) / (2 * l) == w.thick / 2);
    assert(mag_x <= w.thick / 2);
    assert(mag_y <= w.thick / 2);
    assert(w.thick / 2 <= w.thick) by (nonlinear_arith)
        requires
            w.thick >= 1,
    ;
    lemma_div_pos_is_pos(w.thick * iabs(dy), 2 * l);
    lemma_div_pos_is_pos(w.thick * iabs(dx), 2 * l);
    assert(0 <= mag_x);
    assert(0 <= mag_y);
}

/// A valid wall's four collision-box edges all lie within the coordinate
/// range the exact intersection arithmetic accepts.
pub proof fn lemma_wall_sides_in_range(w: Wall)
    requires
        wall_in_range(w),
    ensures
        seg_in_range(wall_box_top(w)),
        seg_in_range(wall_box_right(w)),
        seg_in_range(wall_box_bottom(w)),
        seg_in_range(wall_box_left(w)),
{
    lemma_wall_radius_bounds(w);
}

impl Wall {
    /// Builds a wall of thickness 5 on the given centerline.  Returns
    /// `None` for a zero-length centerline (its perpendicular is
    /// undefined) and for coordinates beyond the entity bound.
    pub fn new(start: Vec2, end: Vec2) -> (w: Option<Wall>)
        ensures
            w is Some <==> {
                &&& -ENTITY_LIMIT <= start.x <= ENTITY_LIMIT
                &&& -ENTITY_LIMIT <= start.y <= ENTITY_LIMIT
                &&& -ENTITY_LIMIT <= end.x <= ENTITY_LIMIT
                &&& -ENTITY_LIMIT <= end.y <= ENTITY_LIMIT
                &&& start != end
            },
            w matches Some(wall) ==> wall == (Wall {
                position: Segment { start, end },
                thick: 5,
            }) && wall_in_range(wall),
    {
        let in_bound = -ENTITY_LIMIT <= start.x && start.x <= ENTITY_LIMIT && -ENTITY_LIMIT
            <= start.y && start.y <= ENTITY_LIMIT && -ENTITY_LIMIT <= end.x && end.x
            <= ENTITY_LIMIT && -ENTITY_LIMIT <= end.y && end.y <= ENTITY_LIMIT;
        if in_bound && !(start.x == end.x && start.y == end.y) {
            Some(Wall { position: Segment { start, end }, thick: 5 })
        } else {
            None
        }
    }

    /// The four edges of the wall's thin collision rectangle, in the
    /// order the `Sides` capability hands them out.
    pub fn get_collision_box(&self) -> (bx: [Segment; 4])
        requires
            wall_in_range(*self),
        ensures
            bx[0] == wall_box_top(*self),
            bx[1] == wall_box_right(*self),
            bx[2] == wall_box_bottom(*self),
            bx[3] == wall_box_left(*self),
    {
        proof {
            lemma_wall_len_pos(*self);
            lemma_wall_radius_bounds(*self);
        }
        let sx = self.position.start.x;
        let sy = self.position.start.y;
        let ex = self.position.end.x;
        let ey = self.position.end.y;
        let dx: i64 = ex - sx;
        let dy: i64 = ey - sy;
        proof {
            assert(0 <= dx as int * dx as int <= 0x4000_0000_0000_0000) by (nonlinear_arith)
                requires
                    -0x8000_0000 <= dx as int <= 0x8000_0000,
            ;
            assert(0 <= dy as int * dy as int <= 0x4000_0000_0000_0000) by (nonlinear_arith)
                requires
                    -0x8000_0000 <= dy as int <= 0x8000_0000,
            ;
        }
        let n: u64 = ((dx as i128 * dx as i128) + (dy as i128 * dy as i128)) as u64;
        let l: u64 = isqrt(n);
        proof {
            assert(l == wall_len(*self));
        }
        let ady: u64 = if dy < 0 {
            (-dy) as u64
        } else {
            dy as u64
        };
        let adx: u64 = if dx < 0 {
            (-dx) as u64
        } else {
            dx as u64
        };
        proof {
            assert(self.thick as int * ady as int <= 0x4000_0000 * 0x1_0000_0000)
                by (nonlinear_arith)
                requires
                    0 <= self.thick as int <= 0x4000_0000,
                    0 <= ady as int <= 0x1_0000_0000,
            ;
            assert(self.thick as int * adx as int <= 0x4000_0000 * 0x1_0000_0000)
                by (nonlinear_arith)
                requires
                    0 <= self.thick as int <= 0x4000_0000,
                    0 <= adx as int <= 0x1_0000_0000,
            ;
        }
        let mag_x: u64 = ((self.thick as u64) * ady) / (2 * l);
        let mag_y: u64 = ((self.thick as u64) * adx) / (2 * l);
        let rx: i64 = if dy > 0 {
            -(mag_x as i64)
        } else {
            mag_x as i64
        };
        let ry: i64 = if dx < 0 {
            -(mag_y as i64)
        } else {
            mag_y as i64
        };
        proof {
            assert(rx as int == wall_radius_x(*self));
            assert(ry as int == wall_radius_y(*self));
        }
        [
            Segment {
                start: Vec2 { x: sx - rx, y: sy - ry },
                end: Vec2 { x: ex - rx, y: ey - ry },
            },
            Segment {
                start: Vec2 { x: ex - rx, y: ey - ry },
                end: Vec2 { x: ex + rx, y: ey + ry },
            },
            Segment {
                start: Vec2 { x: ex + rx, y: ey + ry },
                end: Vec2 { x: sx + rx, y: sy + ry },
            },
            Segment {
                start: Vec2 { x: sx + rx, y: sy + ry },
                end: Vec2 { x: sx - rx, y: sy - ry },
            },
        ]
    }
}

impl Sides for Wall {
    open spec fn sides_ok(&self) -> bool {
        wall_in_range(*self)
    }

    open spec fn spec_top(&self) -> Segment {
        wall_box_top(*self)
    }

    open spec fn spec_right(&self) -> Segment {
        wall_box_right(*self)
    }

    open spec fn spec_bottom(&self) -> Segment {
        wall_box_bottom(*self)
    }

    open spec fn spec_left(&self) -> Segment {
        wall_box_left(*self)
    }

    fn top(&self) -> (s: Segment) {
        let bx = self.get_collision_box();
        bx[0]
    }

    fn right(&self) -> (s: Segment) {
        let bx = self.get_collision_box();
        bx[1]
    }

    fn bottom(&self) -> (s: Segment) {
        let bx = self.get_collision_box();
        bx[2]
    }

    fn left(&self) -> (s: Segment) {
        let bx = self.get_collision_box();
        bx[3]
    }
}

} // verus!
