//! Dynamic bodies and their per-step integration.
//!
//! A body stores its current and previous rectangle; its speed is
//! implicit, the difference of the two positions (a Verlet-style
//! integrator with no stored velocity).  Each step, the aggregated
//! collision result redirects that implicit speed edge by edge, the
//! acceleration is applied once as `acc * dt^2`, and the previous
//! rectangle is advanced.

use vstd::prelude::*;
use vstd::arithmetic::div_mod::lemma_div_nonincreasing;
use crate::check_collision;
use crate::collision_result::{result_is_empty, CollisionResult};
use crate::grid::{Col, Grid, Row};
use crate::rect::{rect_in_range, Rect};
use crate::spec_check_collision;
use crate::traits::{
    lemma_grid_item_sides_in_range, spec_aabb, spec_div_clamp, GridItem, Position, Redirect,
    Sides,
};
use crate::segment::Segment;
use crate::vec2::{iabs, Vec2};
use crate::ENTITY_LIMIT;

verus! {

/// A dynamic body: a unique id (used only to exclude self-comparison),
/// the current and the previous rectangle, and a one-shot acceleration
/// impulse consumed by the next step.
#[derive(Clone, Copy, PartialEq, Eq, Structural, Debug)]
pub struct Block {
    pub id: usize,
    pub rec: Rect,
    pub old_rec: Rect,
    pub acc: Vec2,
}

/// The validity a body keeps while simulated: both rectangles within the
/// entity bound and a bounded acceleration.
pub open spec fn block_in_range(b: Block) -> bool {
    &&& rect_in_range(b.rec)
    &&& rect_in_range(b.old_rec)
    &&& -ENTITY_LIMIT <= b.acc.x <= ENTITY_LIMIT
    &&& -ENTITY_LIMIT <= b.acc.y <= ENTITY_LIMIT
}

/// The collision result a step works with: the aggregated one, or the
/// all-empty record when no candidate reported contact.
pub open spec fn effective_result(c: Option<CollisionResult>) -> CollisionResult {
    match c {
        Some(cr) => cr,
        None => CollisionResult { top: None, right: None, bottom: None, left: None },
    }
}

/// The velocity-redirection policy, keyed by which subset of the four
/// slots holds a contact.  A single edge forces the matching component
/// away from it, keeping its magnitude; two adjacent edges force both
/// components; an opposite pair mirrors the matching component's sign (a
/// documented approximation that does not consult the contact normal);
/// three or four edges are degenerate geometry and leave the speed
/// unchanged.
pub open spec fn redirect_speed(sx: int, sy: int, cr: CollisionResult) -> (int, int) {
    let t = cr.top is Some;
    let r = cr.right is Some;
    let b = cr.bottom is Some;
    let l = cr.left is Some;
    if !t && !r && !b && !l {
        (sx, sy)
    } else if t && !r && !b && !l {
        (sx, iabs(sy))
    } else if !t && r && !b && !l {
        (-iabs(sx), sy)
    } else if !t && !r && b && !l {
        (sx, -iabs(sy))
    } else if !t && !r && !b && l {
        (iabs(sx), sy)
    } else if t && r && !b && !l {
        (-iabs(sx), iabs(sy))
    } else if t && !r && !b && l {
        (iabs(sx), iabs(sy))
    } else if !t && r && b && !l {
        (-iabs(sx), -iabs(sy))
    } else if !t && !r && b && l {
        (iabs(sx), -iabs(sy))
    } else if t && !r && b && !l {
        (sx, -sy)
    } else if !t && r && !b && l {
        (-sx, sy)
    } else {
        (sx, sy)
    }
}

/// The one-shot displacement an acceleration contributes in a step of
/// `dt_ms` milliseconds: `a * dt^2` with `dt` in seconds, computed as
/// `a * dt_ms^2 / 1_000_000` with the magnitude floored.
pub open spec fn accel_term(a: int, dt_ms: int) -> int {
    if a >= 0 {
        (a * (dt_ms * dt_ms)) / 1000000
    } else {
        -(((-a) * (dt_ms * dt_ms)) / 1000000)
    }
}

fn accel_step(a: i64, dt_ms: u32) -> (r: i64)
    requires
        -ENTITY_LIMIT <= a <= ENTITY_LIMIT,
        dt_ms <= 1000,
    ensures
        r == accel_term(a as int, dt_ms as int),
        -ENTITY_LIMIT <= r <= ENTITY_LIMIT,
{
    proof {
        assert((dt_ms as int) * (dt_ms as int) <= 1000000) by (nonlinear_arith)
            requires
                0 <= dt_ms as int <= 1000,
        ;
    }
    let dt2: u64 = (dt_ms as u64) * (dt_ms as u64);
    if a >= 0 {
        proof {
            assert((a as int) * (dt2 as int) <= 1073741824000000) by (nonlinear_arith)
                requires
                    0 <= a as int <= 0x4000_0000,
                    0 <= dt2 as int <= 1000000,
            ;
        }
        let num: u64 = (a as u64) * dt2;
        let q: u64 = num / 1000000;
        proof {
            lemma_div_nonincreasing(num as int, 1000000);
        }
        q as i64
    } else {
        proof {
            assert(((-a) as int) * (dt2 as int) <= 1073741824000000) by (nonlinear_arith)
                requires
                    0 <= (-a) as int <= 0x4000_0000,
                    0 <= dt2 as int <= 1000000,
            ;
        }
        let num: u64 = ((-a) as u64) * dt2;
        let q: u64 = num / 1000000;
        proof {
            lemma_div_nonincreasing(num as int, 1000000);
        }
        -(q as i64)
    }
}

impl Block {
    /// A body at `rec` with no implicit speed (previous rectangle equal
    /// to the current one), a fresh default id, and the given one-shot
    /// acceleration.
    pub fn new(rec: Rect, acc: Vec2) -> (b: Block)
        ensures
            b.id == 0,
            b.rec == rec,
            b.old_rec == rec,
            b.acc == acc,
    {
        Block { id: 0, rec, old_rec: rec, acc }
    }

    /// One integration step.  The implicit speed `position - previous
    /// position` is redirected by the aggregated collision result, the
    /// body moves by the redirected speed plus `acc * dt^2`, the previous
    /// rectangle becomes the pre-step current one, and the one-shot
    /// acceleration is reset to zero.
    pub fn update(&mut self, delta_ms: u32, collided: &Option<CollisionResult>)
        requires
            block_in_range(*old(self)),
            delta_ms <= 1000,
        ensures
            final(self).id == old(self).id,
            final(self).old_rec == old(self).rec,
            final(self).acc == (Vec2 { x: 0, y: 0 }),
            final(self).rec.width == old(self).rec.width,
            final(self).rec.height == old(self).rec.height,
            ({
                let s = redirect_speed(
                    old(self).rec.x - old(self).old_rec.x,
                    old(self).rec.y - old(self).old_rec.y,
                    effective_result(*collided),
                );
                &&& final(self).rec.x == old(self).rec.x + s.0 + accel_term(
                    old(self).acc.x as int,
                    delta_ms as int,
                )
                &&& final(self).rec.y == old(self).rec.y + s.1 + accel_term(
                    old(self).acc.y as int,
                    delta_ms as int,
                )
            }),
    {
        let initial_speed = Vec2 {
            x: self.rec.x - self.old_rec.x,
            y: self.rec.y - self.old_rec.y,
        };
        let speed: Vec2 = match collided {
            Some(collision) => {
                match (collision.top, collision.right, collision.bottom, collision.left) {
                    // No collision
                    (None, None, None, None) => initial_speed,
                    // One edge only
                    (Some(_), None, None, None) => initial_speed.move_down(),
                    (None, Some(_), None, None) => initial_speed.move_left(),
                    (None, None, Some(_), None) => initial_speed.move_up(),
                    (None, None, None, Some(_)) => initial_speed.move_right(),
                    // Two adjacent edges
                    (Some(_), Some(_), None, None) => initial_speed.move_down().move_left(),
                    (Some(_), None, None, Some(_)) => initial_speed.move_down().move_right(),
                    (None, Some(_), Some(_), None) => initial_speed.move_left().move_up(),
                    (None, None, Some(_), Some(_)) => initial_speed.move_up().move_right(),
                    // Two opposite edges: mirror the matching component's
                    // sign; an approximation that skips the contact normal
                    (Some(_), None, Some(_), None) => Vec2 {
                        x: initial_speed.x,
                        y: -initial_speed.y,
                    },
                    (None, Some(_), None, Some(_)) => Vec2 {
                        x: -initial_speed.x,
                        y: initial_speed.y,
                    },
                    // Three or four edges: degenerate, leave unchanged
                    (None, Some(_), Some(_), Some(_)) => initial_speed,
                    (Some(_), None, Some(_), Some(_)) => initial_speed,
                    (Some(_), Some(_), None, Some(_)) => initial_speed,
                    (Some(_), Some(_), Some(_), None) => initial_speed,
                    (Some(_), Some(_), Some(_), Some(_)) => initial_speed,
                }
            },
            None => initial_speed,
        };
        self.old_rec = self.rec;
        let ax = accel_step(self.acc.x, delta_ms);
        let ay = accel_step(self.acc.y, delta_ms);
        let new_position = Vec2 { x: self.rec.x + speed.x + ax, y: self.rec.y + speed.y + ay };
        self.rec.set_position(new_position);
        self.acc = Vec2 { x: 0, y: 0 };
    }
}

impl Sides for Block {
    open spec fn sides_ok(&self) -> bool {
        rect_in_range(self.rec)
    }

    open spec fn spec_top(&self) -> Segment {
        self.rec.spec_top()
    }

    open spec fn spec_right(&self) -> Segment {
        self.rec.spec_right()
    }

    open spec fn spec_bottom(&self) -> Segment {
        self.rec.spec_bottom()
    }

    open spec fn spec_left(&self) -> Segment {
        self.rec.spec_left()
    }

    fn top(&self) -> (s: Segment) {
        self.rec.top()
    }

    fn right(&self) -> (s: Segment) {
        self.rec.right()
    }

    fn bottom(&self) -> (s: Segment) {
        self.rec.bottom()
    }

    fn left(&self) -> (s: Segment) {
        self.rec.left()
    }
}

impl Position for Block {
    open spec fn spec_position(&self) -> Vec2 {
        self.rec.spec_position()
    }

    open spec fn spec_with_position(&self, p: Vec2) -> Block {
        Block { rec: self.rec.spec_with_position(p), ..*self }
    }

    fn position(&self) -> (p: Vec2) {
        self.rec.position()
    }

    fn set_position(&mut self, new_position: Vec2) {
        self.rec.set_position(new_position);
    }
}

/// The narrow-phase record of a body against one participant.
pub open spec fn spec_block_vs_item(b: Block, it: GridItem) -> CollisionResult {
    spec_check_collision(
        b.spec_top(),
        b.spec_right(),
        b.spec_bottom(),
        b.spec_left(),
        it.spec_top(),
        it.spec_right(),
        it.spec_bottom(),
        it.spec_left(),
    )
}

/// Whether a candidate is the subject itself; identity is its unique id,
/// never value equality.
pub open spec fn is_same_block(b: Block, it: GridItem) -> bool {
    match it {
        GridItem::Block(b2) => b2.id == b.id,
        GridItem::Wall(_) => false,
    }
}

/// The first candidate handle, from position `i` of the query result on,
/// that resolves to a participant other than the subject and whose
/// narrow-phase record holds any contact; the full record of that one
/// candidate, or `None` when no candidate reports contact.  Handles
/// beyond the participant list are skipped.
pub open spec fn spec_first_collision(
    b: Block,
    handles: Seq<usize>,
    items: Seq<GridItem>,
    i: int,
) -> Option<CollisionResult>
    decreases handles.len() - i,
{
    if i < 0 || i >= handles.len() {
        None
    } else {
        let h = handles[i] as int;
        if h < items.len() && !is_same_block(b, items[h]) && !result_is_empty(
            spec_block_vs_item(b, items[h]),
        ) {
            Some(spec_block_vs_item(b, items[h]))
        } else {
            spec_first_collision(b, handles, items, i + 1)
        }
    }
}

/// `v - 1` on positive `v`, clamped at zero: one grid cell earlier.
pub open spec fn dec_clamp(v: int) -> int {
    if v > 0 {
        v - 1
    } else {
        0
    }
}

/// The inclusive row range a body's collision query covers: the rows of
/// its bounding box, expanded by one cell on each side.
pub open spec fn spec_candidate_rows(b: Block, spacing: int) -> (int, int) {
    let bb = spec_aabb(b.spec_top(), b.spec_right(), b.spec_bottom(), b.spec_left());
    (dec_clamp(spec_div_clamp(bb.start.y as int, spacing)), spec_div_clamp(
        bb.end.y as int,
        spacing,
    ) + 1)
}

/// The inclusive column range a body's collision query covers.
pub open spec fn spec_candidate_cols(b: Block, spacing: int) -> (int, int) {
    let bb = spec_aabb(b.spec_top(), b.spec_right(), b.spec_bottom(), b.spec_left());
    (dec_clamp(spec_div_clamp(bb.start.x as int, spacing)), spec_div_clamp(
        bb.end.x as int,
        spacing,
    ) + 1)
}

impl Block {
    /// Queries the grid for the candidates around the body's bounding
    /// box, expanded by one cell on each side, and tests the body against
    /// each in query order, skipping itself by id: the first candidate
    /// whose narrow-phase record holds any contact provides the body's
    /// collision result for the step; later candidates contribute
    /// nothing.
    pub fn calculate_collisions(&self, grid: &Grid, items: &Vec<GridItem>) -> (r: Option<
        CollisionResult,
    >)
        requires
            grid.wf(),
            1 <= grid.spacing,
            block_in_range(*self),
            forall|i: int| 0 <= i < items@.len() ==> (#[trigger] items@[i]).wf(),
        ensures
            r == spec_first_collision(
                *self,
                grid.query_seq(
                    spec_candidate_rows(*self, grid.spacing as int).0,
                    spec_candidate_rows(*self, grid.spacing as int).1,
                    spec_candidate_cols(*self, grid.spacing as int).0,
                    spec_candidate_cols(*self, grid.spacing as int).1,
                ),
                items@,
                0,
            ),
    {
        let ranges = self.calculate_grid_ranges(grid.spacing);
        let row_s: Row = ranges.0.0;
        let row_e: Row = ranges.0.1;
        let col_s: Col = ranges.1.0;
        let col_e: Col = ranges.1.1;
        let ghost bb = spec_aabb(
            self.spec_top(),
            self.spec_right(),
            self.spec_bottom(),
            self.spec_left(),
        );
        proof {
            if bb.end.y as int > 0 {
                lemma_div_nonincreasing(bb.end.y as int, grid.spacing as int);
            }
            if bb.end.x as int > 0 {
                lemma_div_nonincreasing(bb.end.x as int, grid.spacing as int);
            }
        }
        let rs: usize = if row_s.0 > 0 {
            row_s.0 - 1
        } else {
            0
        };
        let re: usize = row_e.0 + 1;
        let cs: usize = if col_s.0 > 0 {
            col_s.0 - 1
        } else {
            0
        };
        let ce: usize = col_e.0 + 1;
        let candidates = grid.get_many((Row(rs), Row(re)), (Col(cs), Col(ce)));
        let ghost cand = candidates@;
        let ghost query = grid.query_seq(
            spec_candidate_rows(*self, grid.spacing as int).0,
            spec_candidate_rows(*self, grid.spacing as int).1,
            spec_candidate_cols(*self, grid.spacing as int).0,
            spec_candidate_cols(*self, grid.spacing as int).1,
        );
        proof {
            assert(cand == query);
        }
        let mut i: usize = 0;
        while i < candidates.len()
            invariant
                0 <= i <= cand.len(),
                candidates@ == cand,
                cand == grid.query_seq(
                    spec_candidate_rows(*self, grid.spacing as int).0,
                    spec_candidate_rows(*self, grid.spacing as int).1,
                    spec_candidate_cols(*self, grid.spacing as int).0,
                    spec_candidate_cols(*self, grid.spacing as int).1,
                ),
                block_in_range(*self),
                forall|k: int| 0 <= k < items@.len() ==> (#[trigger] items@[k]).wf(),
                spec_first_collision(*self, cand, items@, 0) == spec_first_collision(
                    *self,
                    cand,
                    items@,
                    i as int,
                ),
            decreases cand.len() - i,
        {
            let h: usize = candidates[i];
            if h < items.len() {
                let it = &items[h];
                let is_self = match it {
                    GridItem::Block(b2) => b2.id == self.id,
                    GridItem::Wall(_) => false,
                };
                if !is_self {
                    proof {
                        lemma_grid_item_sides_in_range(items@[h as int]);
                    }
                    let cr = check_collision(self, it);
                    let found = cr.into_option();
                    match found {
                        Some(c) => {
                            proof {
                                assert(spec_first_collision(*self, cand, items@, i as int)
                                    == Some(c));
                            }
                            return Some(c);
                        },
                        None => {
                            proof {
                                assert(spec_first_collision(*self, cand, items@, i as int)
                                    == spec_first_collision(*self, cand, items@, i + 1));
                            }
                        },
                    }
                } else {
                    proof {
                        assert(spec_first_collision(*self, cand, items@, i as int)
                            == spec_first_collision(*self, cand, items@, i + 1));
                    }
                }
            } else {
                proof {
                    assert(spec_first_collision(*self, cand, items@, i as int)
                        == spec_first_collision(*self, cand, items@, i + 1));
                }
            }
            i += 1;
        }
        None
    }
}

/// A contact on the top edge alone forces the vertical speed component
/// downward in sign: the redirected vertical component is `|sy|`, never
/// negative (upward), and strictly positive (downward) whenever the
/// implicit vertical speed is nonzero.  A body whose implicit speed is
/// exactly zero keeps a zero redirected speed: the policy forces
/// direction, not magnitude, so such a body is displaced in the step only
/// by its acceleration term.
pub proof fn lemma_top_contact_forces_downward(sx: int, sy: int, cr: CollisionResult)
    requires
        cr.top is Some,
        cr.right is None,
        cr.bottom is None,
        cr.left is None,
    ensures
        redirect_speed(sx, sy, cr).0 == sx,
        redirect_speed(sx, sy, cr).1 == iabs(sy),
        redirect_speed(sx, sy, cr).1 >= 0,
        sy != 0 ==> redirect_speed(sx, sy, cr).1 > 0,
{
}

/// A contact on exactly three edges is degenerate geometry: the policy
/// leaves the implicit speed unchanged rather than zeroing it.
pub proof fn lemma_three_edge_contact_keeps_speed(sx: int, sy: int, cr: CollisionResult)
    requires
        ({
            let t = cr.top is Some;
            let r = cr.right is Some;
            let b = cr.bottom is Some;
            let l = cr.left is Some;
            ||| !t && r && b && l
            ||| t && !r && b && l
            ||| t && r && !b && l
            ||| t && r && b && !l
        }),
    ensures
        redirect_speed(sx, sy, cr) == (sx, sy),
{
}

} // verus!
